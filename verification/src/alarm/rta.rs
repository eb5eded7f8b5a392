//! RTA-PDU codec: the alarm transport (RTA) frame carried over Ethernet `0x8892` (FrameID
//! `0xFC01` High priority / `0xFE01` Low priority), and the two PNIO blocks it carries in its
//! DATA variant, AlarmNotification and AlarmAck.

use vstd::prelude::*;

use vstd::slice::{slice_subrange, slice_to_vec};

use crate::bytes;
use crate::cm::block::{self, BlockHeader, Cursor};
use crate::cm::{BlockError, PnioStatus};
use crate::eth::{self, EthError, EthHeader, MacAddr, ETHERTYPE_PROFINET};

verus! {

/// FrameID for the High priority alarm channel.
pub const FRAME_ID_HIGH: u16 = 0xFC01;

/// FrameID for the Low priority alarm channel.
pub const FRAME_ID_LOW: u16 = 0xFE01;

/// VLAN TCI (priority 6) for the High priority alarm channel.
pub const TCI_HIGH: u16 = 0xC000;

/// VLAN TCI (priority 5) for the Low priority alarm channel.
pub const TCI_LOW: u16 = 0xA000;

/// `SendSeqNum` of the first DATA sent on a fresh AR.
pub const SEQ_INIT: u16 = 0xFFFF;

/// `SendSeqNum`/`AckSeqNum` value before any DATA has been sent to / accepted from the peer.
pub const SEQ_NONE: u16 = 0xFFFE;

/// USI for a `ChannelDiagnosis` payload (6 bytes).
pub const USI_CHANNEL_DIAG: u16 = 0x8000;

/// USI for an `ExtChannelDiagnosis` payload (12 bytes).
pub const USI_EXT_CHANNEL_DIAG: u16 = 0x8002;

/// 1 for `true`, 0 for `false`.
pub open spec fn flag(b: bool) -> int {
    if b {
        1
    } else {
        0
    }
}

/// The 16-bit value of one flag at the place of value `weight`.
fn flag_at(b: bool, weight: u16) -> (v: u16)
    ensures
        v == flag(b) * weight,
{
    if b {
        weight
    } else {
        0
    }
}

/// Which of the two alarm channels (VLAN priority / FrameID) a PDU travels on.
#[derive(Debug, Clone, Copy, PartialEq, Eq, Structural)]
pub enum Priority {
    High,
    Low,
}

impl Priority {
    /// The FrameID of the channel.
    #[verifier::allow_in_spec]
    pub fn frame_id(self) -> u16
        returns
            (match self {
                Priority::High => FRAME_ID_HIGH,
                Priority::Low => FRAME_ID_LOW,
            }),
    {
        match self {
            Priority::High => FRAME_ID_HIGH,
            Priority::Low => FRAME_ID_LOW,
        }
    }

    /// The VLAN tag control information of the channel.
    #[verifier::allow_in_spec]
    pub fn tci(self) -> u16
        returns
            (match self {
                Priority::High => TCI_HIGH,
                Priority::Low => TCI_LOW,
            }),
    {
        match self {
            Priority::High => TCI_HIGH,
            Priority::Low => TCI_LOW,
        }
    }

    /// The channel of a FrameID, if it is one of an alarm channel.
    pub open spec fn of_frame_id(id: u16) -> Option<Priority> {
        if id == FRAME_ID_HIGH {
            Some(Priority::High)
        } else if id == FRAME_ID_LOW {
            Some(Priority::Low)
        } else {
            None
        }
    }
}

/// RTA-PDU `PDUType` (low nibble of the type/version byte).
#[derive(Debug, Clone, Copy, PartialEq, Eq, Structural)]
pub enum PduType {
    Data,
    Nack,
    Ack,
    Error,
}

impl PduType {
    /// The type's number on the wire.
    pub open spec fn number(self) -> u8 {
        match self {
            PduType::Data => 1,
            PduType::Nack => 2,
            PduType::Ack => 3,
            PduType::Error => 4,
        }
    }

    fn to_u8(self) -> (n: u8)
        ensures
            n == self.number(),
    {
        match self {
            PduType::Data => 1,
            PduType::Nack => 2,
            PduType::Ack => 3,
            PduType::Error => 4,
        }
    }
}

/// Errors from reading an alarm frame.
#[derive(Debug, Clone, Copy, PartialEq, Eq)]
pub enum RtaError {
    /// The Ethernet header is cut off.
    Eth(EthError),
    /// Not an alarm frame: another ethertype or FrameID.
    NotAlarm,
    /// The frame ends inside the alarm header or the error status.
    TooShort,
    /// A `PDUType` that is none of the four.
    BadPduType(u8),
    /// An RTA-PDU version other than 1.
    BadVersion(u8),
    /// The PNIO block of a DATA PDU does not parse.
    Block(BlockError),
    /// The declared length of the variable part exceeds what follows the header.
    BadVarPartLen {
        /// Length that the header declares.
        declared: u16,
        /// Bytes that follow the header.
        available: usize,
    },
}

/// The 12-byte RTA-PDU header that follows the alarm FrameID.
#[derive(Debug, Clone, Copy, PartialEq, Eq, Structural)]
pub struct RtaHeader {
    pub dst_ref: u16,
    pub src_ref: u16,
    pub pdu_type: PduType,
    pub tack: bool,
    pub send_seq: u16,
    pub ack_seq: u16,
}

impl RtaHeader {
    /// Length of the header on the wire.
    pub const LEN: usize = 12;

    /// The header with type `pdu_type` whose other fields stand in `buf`.
    pub open spec fn fields(buf: Seq<u8>, pdu_type: PduType) -> RtaHeader {
        RtaHeader {
            dst_ref: bytes::be16(buf, 0),
            src_ref: bytes::be16(buf, 2),
            pdu_type,
            tack: buf[5] / 0x10 % 2 == 1,
            send_seq: bytes::be16(buf, 6),
            ack_seq: bytes::be16(buf, 8),
        }
    }

    /// What `buf` starts with: a version 1 header and the length of the variable part.
    pub open spec fn spec_parse(buf: Seq<u8>) -> Result<(RtaHeader, u16), RtaError> {
        let version = buf[4] / 0x10;
        let number = buf[4] % 0x10;
        let len = bytes::be16(buf, 10);
        if buf.len() < 12 {
            Err(RtaError::TooShort)
        } else if version != 1 {
            Err(RtaError::BadVersion(version))
        } else if number == 1 {
            Ok((Self::fields(buf, PduType::Data), len))
        } else if number == 2 {
            Ok((Self::fields(buf, PduType::Nack), len))
        } else if number == 3 {
            Ok((Self::fields(buf, PduType::Ack), len))
        } else if number == 4 {
            Ok((Self::fields(buf, PduType::Error), len))
        } else {
            Err(RtaError::BadPduType(number))
        }
    }

    /// The header's bytes; the window size is always 1.
    pub open spec fn spec_bytes(self, var_part_len: u16) -> Seq<u8> {
        bytes::be16_bytes(self.dst_ref) + bytes::be16_bytes(self.src_ref) + seq![
            (0x10 + self.pdu_type.number()) as u8,
            (0x01 + 0x10 * flag(self.tack)) as u8,
        ] + bytes::be16_bytes(self.send_seq) + bytes::be16_bytes(self.ack_seq) + bytes::be16_bytes(
            var_part_len,
        )
    }

    /// Parses the 12-byte header; returns `(header, var_part_len)`.
    pub fn parse(buf: &[u8]) -> (res: Result<(RtaHeader, u16), RtaError>)
        ensures
            res == Self::spec_parse(buf@),
    {
        if buf.len() < Self::LEN {
            return Err(RtaError::TooShort);
        }
        let version: u8 = buf[4] / 0x10;
        let number: u8 = buf[4] % 0x10;
        if version != 1 {
            return Err(RtaError::BadVersion(version));
        }
        let pdu_type = if number == 1 {
            PduType::Data
        } else if number == 2 {
            PduType::Nack
        } else if number == 3 {
            PduType::Ack
        } else if number == 4 {
            PduType::Error
        } else {
            return Err(RtaError::BadPduType(number));
        };
        Ok(
            (
                RtaHeader {
                    dst_ref: bytes::read_be16(buf, 0),
                    src_ref: bytes::read_be16(buf, 2),
                    pdu_type,
                    tack: buf[5] / 0x10 % 2 == 1,
                    send_seq: bytes::read_be16(buf, 6),
                    ack_seq: bytes::read_be16(buf, 8),
                },
                bytes::read_be16(buf, 10),
            ),
        )
    }

    /// Serializes the header (`var_part_len` is the length of what follows).
    pub fn write(&self, out: &mut Vec<u8>, var_part_len: u16)
        ensures
            final(out)@ == old(out)@ + self.spec_bytes(var_part_len),
    {
        bytes::put_be16(out, self.dst_ref);
        bytes::put_be16(out, self.src_ref);
        out.push(0x10 + self.pdu_type.to_u8());
        out.push(
            if self.tack {
                0x11
            } else {
                0x01
            },
        );
        bytes::put_be16(out, self.send_seq);
        bytes::put_be16(out, self.ack_seq);
        bytes::put_be16(out, var_part_len);
        assert(out@ =~= old(out)@ + self.spec_bytes(var_part_len));
    }
}

/// Reading a written RTA header gives it back, whatever follows.
pub proof fn rta_header_round_trip(h: RtaHeader, var_part_len: u16, rest: Seq<u8>)
    ensures
        h.spec_bytes(var_part_len).len() == RtaHeader::LEN,
        RtaHeader::spec_parse(h.spec_bytes(var_part_len) + rest) == Ok::<_, RtaError>(
            (h, var_part_len),
        ),
{
    let b = h.spec_bytes(var_part_len) + rest;
    eth::lemma_at_16(b, 0, h.dst_ref);
    eth::lemma_at_16(b, 2, h.src_ref);
    assert(b[4] == 0x10 + h.pdu_type.number());
    assert(b[5] == 0x01 + 0x10 * flag(h.tack));
    eth::lemma_at_16(b, 6, h.send_seq);
    eth::lemma_at_16(b, 8, h.ack_seq);
    eth::lemma_at_16(b, 10, var_part_len);
}

/// `AlarmType` field of an AlarmNotification/AlarmAck.
#[derive(Debug, Clone, Copy, PartialEq, Eq, Structural)]
pub enum AlarmType {
    Diagnosis,
    Process,
    Pull,
    Plug,
    Status,
    Update,
    Redundancy,
    ControlledBySupervisor,
    Released,
    PlugWrongSubmodule,
    ReturnOfSubmodule,
    DiagnosisDisappears,
    Other(u16),
}

impl AlarmType {
    /// The alarm type of a number.
    #[verifier::allow_in_spec]
    pub fn from_u16(v: u16) -> Self
        returns
            (match v {
                0x0001 => AlarmType::Diagnosis,
                0x0002 => AlarmType::Process,
                0x0003 => AlarmType::Pull,
                0x0004 => AlarmType::Plug,
                0x0005 => AlarmType::Status,
                0x0006 => AlarmType::Update,
                0x0007 => AlarmType::Redundancy,
                0x0008 => AlarmType::ControlledBySupervisor,
                0x0009 => AlarmType::Released,
                0x000A => AlarmType::PlugWrongSubmodule,
                0x000B => AlarmType::ReturnOfSubmodule,
                0x000C => AlarmType::DiagnosisDisappears,
                other => AlarmType::Other(other),
            }),
    {
        match v {
            0x0001 => AlarmType::Diagnosis,
            0x0002 => AlarmType::Process,
            0x0003 => AlarmType::Pull,
            0x0004 => AlarmType::Plug,
            0x0005 => AlarmType::Status,
            0x0006 => AlarmType::Update,
            0x0007 => AlarmType::Redundancy,
            0x0008 => AlarmType::ControlledBySupervisor,
            0x0009 => AlarmType::Released,
            0x000A => AlarmType::PlugWrongSubmodule,
            0x000B => AlarmType::ReturnOfSubmodule,
            0x000C => AlarmType::DiagnosisDisappears,
            other => AlarmType::Other(other),
        }
    }

    /// The number of an alarm type.
    #[verifier::allow_in_spec]
    pub fn to_u16(self) -> u16
        returns
            (match self {
                AlarmType::Diagnosis => 0x0001u16,
                AlarmType::Process => 0x0002u16,
                AlarmType::Pull => 0x0003u16,
                AlarmType::Plug => 0x0004u16,
                AlarmType::Status => 0x0005u16,
                AlarmType::Update => 0x0006u16,
                AlarmType::Redundancy => 0x0007u16,
                AlarmType::ControlledBySupervisor => 0x0008u16,
                AlarmType::Released => 0x0009u16,
                AlarmType::PlugWrongSubmodule => 0x000Au16,
                AlarmType::ReturnOfSubmodule => 0x000Bu16,
                AlarmType::DiagnosisDisappears => 0x000Cu16,
                AlarmType::Other(v) => v,
            }),
    {
        match self {
            AlarmType::Diagnosis => 0x0001,
            AlarmType::Process => 0x0002,
            AlarmType::Pull => 0x0003,
            AlarmType::Plug => 0x0004,
            AlarmType::Status => 0x0005,
            AlarmType::Update => 0x0006,
            AlarmType::Redundancy => 0x0007,
            AlarmType::ControlledBySupervisor => 0x0008,
            AlarmType::Released => 0x0009,
            AlarmType::PlugWrongSubmodule => 0x000A,
            AlarmType::ReturnOfSubmodule => 0x000B,
            AlarmType::DiagnosisDisappears => 0x000C,
            AlarmType::Other(v) => v,
        }
    }

    /// Whether the type is written as itself: `Other` is not used for a number that has a
    /// name.
    pub open spec fn is_canonical(self) -> bool {
        self matches AlarmType::Other(v) ==> v == 0 || v > 0x000C
    }
}

/// Every number is an alarm type's, and a type reads back from its number. `Other` of a
/// number with a name is the exception: it reads back as the named type.
pub proof fn alarm_type_round_trip(v: u16, t: AlarmType)
    ensures
        AlarmType::from_u16(v).to_u16() == v,
        t.is_canonical() ==> AlarmType::from_u16(t.to_u16()) == t,
{
}

/// `AlarmSpecifier` field: per-AR sequence number plus diagnosis-state flags.
#[derive(Debug, Clone, Copy, PartialEq, Eq, Structural)]
pub struct AlarmSpecifier {
    pub sequence: u16,
    pub channel_diag: bool,
    pub manufacturer_diag: bool,
    pub submodule_diag: bool,
    pub ar_diag: bool,
}

impl Default for AlarmSpecifier {
    fn default() -> (r: Self)
        ensures
            r.sequence == 0,
            !r.channel_diag,
            !r.manufacturer_diag,
            !r.submodule_diag,
            !r.ar_diag,
    {
        AlarmSpecifier {
            sequence: 0,
            channel_diag: false,
            manufacturer_diag: false,
            submodule_diag: false,
            ar_diag: false,
        }
    }
}

impl AlarmSpecifier {
    /// The specifier that a 16-bit field holds: an 11-bit sequence number and the flags in
    /// bits 11, 12, 13 and 15.
    #[verifier::allow_in_spec]
    pub fn from_u16(raw: u16) -> Self
        returns
            (AlarmSpecifier {
                sequence: raw % 0x0800,
                channel_diag: raw / 0x0800 % 2 == 1,
                manufacturer_diag: raw / 0x1000 % 2 == 1,
                submodule_diag: raw / 0x2000 % 2 == 1,
                ar_diag: raw / 0x8000 % 2 == 1,
            }),
    {
        AlarmSpecifier {
            sequence: raw % 0x0800,
            channel_diag: raw / 0x0800 % 2 == 1,
            manufacturer_diag: raw / 0x1000 % 2 == 1,
            submodule_diag: raw / 0x2000 % 2 == 1,
            ar_diag: raw / 0x8000 % 2 == 1,
        }
    }

    /// The 16-bit field of a specifier; only the low 11 bits of the sequence number are
    /// carried.
    #[verifier::allow_in_spec]
    pub fn to_u16(self) -> u16
        returns
            (self.sequence % 0x0800 + 0x0800 * flag(self.channel_diag) + 0x1000 * flag(
                self.manufacturer_diag,
            ) + 0x2000 * flag(self.submodule_diag) + 0x8000 * flag(self.ar_diag)) as u16,
    {
        self.sequence % 0x0800 + flag_at(self.channel_diag, 0x0800) + flag_at(
            self.manufacturer_diag,
            0x1000,
        ) + flag_at(self.submodule_diag, 0x2000) + flag_at(self.ar_diag, 0x8000)
    }
}

/// A specifier with an 11-bit sequence number reads back from its field.
pub proof fn alarm_specifier_round_trip(s: AlarmSpecifier)
    requires
        s.sequence < 0x0800,
    ensures
        AlarmSpecifier::from_u16(s.to_u16()) == s,
{
}

/// `ChannelProperties.Maintenance` (bits 9-10).
#[derive(Debug, Clone, Copy, PartialEq, Eq, Structural)]
pub enum Maintenance {
    Fault,
    Required,
    Demanded,
    Qualified,
}

impl Maintenance {
    /// The two bits of the field.
    #[verifier::allow_in_spec]
    pub fn number(self) -> u16
        returns
            (match self {
                Maintenance::Fault => 0u16,
                Maintenance::Required => 1u16,
                Maintenance::Demanded => 2u16,
                Maintenance::Qualified => 3u16,
            }),
    {
        match self {
            Maintenance::Fault => 0,
            Maintenance::Required => 1,
            Maintenance::Demanded => 2,
            Maintenance::Qualified => 3,
        }
    }

    /// The value that two bits stand for.
    #[verifier::allow_in_spec]
    pub fn of_number(n: u16) -> Self
        returns
            (match n {
                0 => Maintenance::Fault,
                1 => Maintenance::Required,
                2 => Maintenance::Demanded,
                _ => Maintenance::Qualified,
            }),
    {
        match n {
            0 => Maintenance::Fault,
            1 => Maintenance::Required,
            2 => Maintenance::Demanded,
            _ => Maintenance::Qualified,
        }
    }
}

/// `ChannelProperties.Specifier` (bits 11-12).
#[derive(Debug, Clone, Copy, PartialEq, Eq, Structural)]
pub enum Specifier {
    AllDisappear,
    Appears,
    Disappears,
    DisappearsOthersRemain,
}

impl Specifier {
    /// The two bits of the field.
    #[verifier::allow_in_spec]
    pub fn number(self) -> u16
        returns
            (match self {
                Specifier::AllDisappear => 0u16,
                Specifier::Appears => 1u16,
                Specifier::Disappears => 2u16,
                Specifier::DisappearsOthersRemain => 3u16,
            }),
    {
        match self {
            Specifier::AllDisappear => 0,
            Specifier::Appears => 1,
            Specifier::Disappears => 2,
            Specifier::DisappearsOthersRemain => 3,
        }
    }

    /// The value that two bits stand for.
    #[verifier::allow_in_spec]
    pub fn of_number(n: u16) -> Self
        returns
            (match n {
                0 => Specifier::AllDisappear,
                1 => Specifier::Appears,
                2 => Specifier::Disappears,
                _ => Specifier::DisappearsOthersRemain,
            }),
    {
        match n {
            0 => Specifier::AllDisappear,
            1 => Specifier::Appears,
            2 => Specifier::Disappears,
            _ => Specifier::DisappearsOthersRemain,
        }
    }
}

/// `ChannelProperties` u16 bitfield carried by `ChannelDiagnosis`/`ExtChannelDiagnosis`.
#[derive(Debug, Clone, Copy, PartialEq, Eq, Structural)]
pub struct ChannelProperties {
    pub type_: u8,
    pub accumulative: bool,
    pub maintenance: Maintenance,
    pub specifier: Specifier,
    pub direction: u8,
}

impl ChannelProperties {
    /// The properties that a 16-bit field holds: type in bits 0-7, accumulative in bit 8,
    /// maintenance in bits 9-10, specifier in bits 11-12, direction in bits 13-15.
    #[verifier::allow_in_spec]
    pub fn from_u16(raw: u16) -> Self
        returns
            (ChannelProperties {
                type_: (raw % 0x0100) as u8,
                accumulative: raw / 0x0100 % 2 == 1,
                maintenance: Maintenance::of_number(raw / 0x0200 % 4),
                specifier: Specifier::of_number(raw / 0x0800 % 4),
                direction: (raw / 0x2000) as u8,
            }),
    {
        ChannelProperties {
            type_: (raw % 0x0100) as u8,
            accumulative: raw / 0x0100 % 2 == 1,
            maintenance: Maintenance::of_number(raw / 0x0200 % 4),
            specifier: Specifier::of_number(raw / 0x0800 % 4),
            direction: (raw / 0x2000) as u8,
        }
    }

    /// The 16-bit field; only the low three bits of the direction are carried.
    #[verifier::allow_in_spec]
    pub fn to_u16(self) -> u16
        returns
            (self.type_ + 0x0100 * flag(self.accumulative) + 0x0200 * self.maintenance.number()
                + 0x0800 * self.specifier.number() + 0x2000 * (self.direction % 8)) as u16,
    {
        self.type_ as u16 + flag_at(self.accumulative, 0x0100) + 0x0200 * self.maintenance.number()
            + 0x0800 * self.specifier.number() + 0x2000 * ((self.direction % 8) as u16)
    }
}

/// The digits of a number below `0x1_0000` in the places of the channel properties.
proof fn lemma_property_digits(t: int, a: int, m: int, s: int, d: int)
    requires
        0 <= t < 0x100,
        0 <= a < 2,
        0 <= m < 4,
        0 <= s < 4,
        0 <= d < 8,
    ensures
        ({
            let v = t + 0x0100 * a + 0x0200 * m + 0x0800 * s + 0x2000 * d;
            &&& v < 0x1_0000
            &&& v % 0x0100 == t
            &&& v / 0x0100 % 2 == a
            &&& v / 0x0200 % 4 == m
            &&& v / 0x0800 % 4 == s
            &&& v / 0x2000 == d
        }),
{
    let v = t + 0x0100 * a + 0x0200 * m + 0x0800 * s + 0x2000 * d;
    assert(v / 0x0100 == a + 2 * m + 8 * s + 32 * d);
    assert(v / 0x0200 == m + 4 * s + 16 * d);
    assert(v / 0x0800 == s + 4 * d);
}

/// Every field reads as properties that write it back, and properties with a three-bit
/// direction read back from their field.
pub proof fn channel_properties_round_trip(raw: u16, p: ChannelProperties)
    ensures
        ChannelProperties::from_u16(raw).to_u16() == raw,
        p.direction < 8 ==> ChannelProperties::from_u16(p.to_u16()) == p,
{
    let (a, m, s, d) = (raw / 0x0100 % 2, raw / 0x0200 % 4, raw / 0x0800 % 4, raw / 0x2000);
    assert(raw / 0x0800 == s + 4 * d);
    assert(raw / 0x0200 == m + 4 * (raw / 0x0800));
    assert(raw / 0x0100 == a + 2 * (raw / 0x0200));
    assert(Maintenance::of_number(m).number() == m);
    assert(Specifier::of_number(s).number() == s);
    assert(ChannelProperties::from_u16(raw).to_u16() == raw);
    if p.direction < 8 {
        lemma_property_digits(
            p.type_ as int,
            flag(p.accumulative),
            p.maintenance.number() as int,
            p.specifier.number() as int,
            p.direction as int,
        );
    }
}

/// `ChannelDiagnosis` USI `0x8000` payload (6 bytes).
#[derive(Debug, Clone, Copy, PartialEq, Eq, Structural)]
pub struct ChannelDiagnosis {
    pub channel: u16,
    pub properties: ChannelProperties,
    pub error_type: u16,
}

impl ChannelDiagnosis {
    /// What six bytes read as.
    pub open spec fn at(b: Seq<u8>) -> ChannelDiagnosis {
        ChannelDiagnosis {
            channel: bytes::be16(b, 0),
            properties: ChannelProperties::from_u16(bytes::be16(b, 2)),
            error_type: bytes::be16(b, 4),
        }
    }

    /// The payload's bytes.
    pub open spec fn spec_bytes(self) -> Seq<u8> {
        bytes::be16_bytes(self.channel) + bytes::be16_bytes(self.properties.to_u16())
            + bytes::be16_bytes(self.error_type)
    }

    fn parse(b: &[u8]) -> (r: Self)
        requires
            b@.len() == 6,
        ensures
            r == Self::at(b@),
    {
        ChannelDiagnosis {
            channel: bytes::read_be16(b, 0),
            properties: ChannelProperties::from_u16(bytes::read_be16(b, 2)),
            error_type: bytes::read_be16(b, 4),
        }
    }

    fn write(&self, out: &mut Vec<u8>)
        ensures
            final(out)@ == old(out)@ + self.spec_bytes(),
    {
        bytes::put_be16(out, self.channel);
        bytes::put_be16(out, self.properties.to_u16());
        bytes::put_be16(out, self.error_type);
        assert(out@ =~= old(out)@ + self.spec_bytes());
    }
}

/// `ExtChannelDiagnosis` USI `0x8002` payload (12 bytes): `ChannelDiagnosis` plus
/// `ExtChannelErrorType` and `ExtChannelAddValue`.
#[derive(Debug, Clone, Copy, PartialEq, Eq, Structural)]
pub struct ExtChannelDiagnosis {
    pub channel: u16,
    pub properties: ChannelProperties,
    pub error_type: u16,
    pub ext_error_type: u16,
    pub ext_add_value: u32,
}

impl ExtChannelDiagnosis {
    /// What twelve bytes read as.
    pub open spec fn at(b: Seq<u8>) -> ExtChannelDiagnosis {
        ExtChannelDiagnosis {
            channel: bytes::be16(b, 0),
            properties: ChannelProperties::from_u16(bytes::be16(b, 2)),
            error_type: bytes::be16(b, 4),
            ext_error_type: bytes::be16(b, 6),
            ext_add_value: bytes::be32(b, 8),
        }
    }

    /// The payload's bytes.
    pub open spec fn spec_bytes(self) -> Seq<u8> {
        bytes::be16_bytes(self.channel) + bytes::be16_bytes(self.properties.to_u16())
            + bytes::be16_bytes(self.error_type) + bytes::be16_bytes(self.ext_error_type)
            + bytes::be32_bytes(self.ext_add_value)
    }

    fn parse(b: &[u8]) -> (r: Self)
        requires
            b@.len() == 12,
        ensures
            r == Self::at(b@),
    {
        ExtChannelDiagnosis {
            channel: bytes::read_be16(b, 0),
            properties: ChannelProperties::from_u16(bytes::read_be16(b, 2)),
            error_type: bytes::read_be16(b, 4),
            ext_error_type: bytes::read_be16(b, 6),
            ext_add_value: bytes::read_be32(b, 8),
        }
    }

    fn write(&self, out: &mut Vec<u8>)
        ensures
            final(out)@ == old(out)@ + self.spec_bytes(),
    {
        bytes::put_be16(out, self.channel);
        bytes::put_be16(out, self.properties.to_u16());
        bytes::put_be16(out, self.error_type);
        bytes::put_be16(out, self.ext_error_type);
        bytes::put_be32(out, self.ext_add_value);
        assert(out@ =~= old(out)@ + self.spec_bytes());
    }
}

/// The USI-specific user data carried by an `AlarmNotification`.
#[derive(Debug, Clone, PartialEq, Eq)]
pub enum UserData {
    Channel(ChannelDiagnosis),
    ExtChannel(ExtChannelDiagnosis),
    Raw(Vec<u8>),
}

/// What a [`UserData`] holds.
pub enum UserDataView {
    Channel(ChannelDiagnosis),
    ExtChannel(ExtChannelDiagnosis),
    Raw(Seq<u8>),
}

impl View for UserData {
    type V = UserDataView;

    open spec fn view(&self) -> UserDataView {
        match *self {
            UserData::Channel(d) => UserDataView::Channel(d),
            UserData::ExtChannel(d) => UserDataView::ExtChannel(d),
            UserData::Raw(v) => UserDataView::Raw(v@),
        }
    }
}

impl UserDataView {
    /// What the bytes behind a user structure identifier read as: the diagnosis it names
    /// where the length fits, else the bytes themselves.
    pub open spec fn of(usi: u16, b: Seq<u8>) -> UserDataView {
        if usi == USI_CHANNEL_DIAG && b.len() == 6 {
            UserDataView::Channel(ChannelDiagnosis::at(b))
        } else if usi == USI_EXT_CHANNEL_DIAG && b.len() == 12 {
            UserDataView::ExtChannel(ExtChannelDiagnosis::at(b))
        } else {
            UserDataView::Raw(b)
        }
    }

    /// The data's bytes on the wire.
    pub open spec fn spec_bytes(self) -> Seq<u8> {
        match self {
            UserDataView::Channel(d) => d.spec_bytes(),
            UserDataView::ExtChannel(d) => d.spec_bytes(),
            UserDataView::Raw(b) => b,
        }
    }

    /// Whether the data is what its own bytes read as behind `usi`.
    pub open spec fn is_canonical(self, usi: u16) -> bool {
        match self {
            UserDataView::Channel(d) => usi == USI_CHANNEL_DIAG && d.properties.direction < 8,
            UserDataView::ExtChannel(d) => usi == USI_EXT_CHANNEL_DIAG && d.properties.direction
                < 8,
            UserDataView::Raw(b) => {
                &&& !(usi == USI_CHANNEL_DIAG && b.len() == 6)
                &&& !(usi == USI_EXT_CHANNEL_DIAG && b.len() == 12)
            },
        }
    }
}

/// User data reads back from its bytes.
pub proof fn user_data_round_trip(d: UserDataView, usi: u16)
    requires
        d.is_canonical(usi),
    ensures
        UserDataView::of(usi, d.spec_bytes()) == d,
{
    let b = d.spec_bytes();
    match d {
        UserDataView::Channel(c) => {
            eth::lemma_at_16(b, 0, c.channel);
            eth::lemma_at_16(b, 2, c.properties.to_u16());
            eth::lemma_at_16(b, 4, c.error_type);
            channel_properties_round_trip(0, c.properties);
        },
        UserDataView::ExtChannel(c) => {
            eth::lemma_at_16(b, 0, c.channel);
            eth::lemma_at_16(b, 2, c.properties.to_u16());
            eth::lemma_at_16(b, 4, c.error_type);
            eth::lemma_at_16(b, 6, c.ext_error_type);
            bytes::lemma_be32_round_trip(c.ext_add_value, b.take(8), Seq::empty());
            assert(b.take(8) + bytes::be32_bytes(c.ext_add_value) + Seq::<u8>::empty() =~= b);
            channel_properties_round_trip(0, c.properties);
        },
        UserDataView::Raw(_) => {},
    }
}

/// AlarmNotification block body (BlockType `0x0001` High / `0x0002` Low).
#[derive(Debug, Clone, PartialEq, Eq)]
pub struct AlarmNotification {
    pub alarm_type: AlarmType,
    pub api: u32,
    pub slot: u16,
    pub subslot: u16,
    pub module_ident: u32,
    pub submodule_ident: u32,
    pub specifier: AlarmSpecifier,
    pub usi: u16,
    pub data: UserData,
}

/// What an [`AlarmNotification`] holds.
pub struct NotificationView {
    pub alarm_type: AlarmType,
    pub api: u32,
    pub slot: u16,
    pub subslot: u16,
    pub module_ident: u32,
    pub submodule_ident: u32,
    pub specifier: AlarmSpecifier,
    pub usi: u16,
    pub data: UserDataView,
}

impl View for AlarmNotification {
    type V = NotificationView;

    open spec fn view(&self) -> NotificationView {
        NotificationView {
            alarm_type: self.alarm_type,
            api: self.api,
            slot: self.slot,
            subslot: self.subslot,
            module_ident: self.module_ident,
            submodule_ident: self.submodule_ident,
            specifier: self.specifier,
            usi: self.usi,
            data: self.data@,
        }
    }
}

impl NotificationView {
    /// Where the first field that does not fit in `len` bytes ends.
    pub open spec fn first_end_beyond(len: int) -> int {
        if len < 2 {
            2
        } else if len < 10 {
            if len < 6 {
                6
            } else {
                len / 2 * 2 + 2
            }
        } else if len < 14 {
            14
        } else if len < 18 {
            18
        } else {
            len / 2 * 2 + 2
        }
    }

    /// What a notification block's body reads as.
    pub open spec fn spec_parse(body: Seq<u8>) -> Result<NotificationView, BlockError> {
        if body.len() < 22 {
            Err(block::short(body, Self::first_end_beyond(body.len() as int)))
        } else {
            Ok(
                NotificationView {
                    alarm_type: AlarmType::from_u16(bytes::be16(body, 0)),
                    api: bytes::be32(body, 2),
                    slot: bytes::be16(body, 6),
                    subslot: bytes::be16(body, 8),
                    module_ident: bytes::be32(body, 10),
                    submodule_ident: bytes::be32(body, 14),
                    specifier: AlarmSpecifier::from_u16(bytes::be16(body, 18)),
                    usi: bytes::be16(body, 20),
                    data: UserDataView::of(bytes::be16(body, 20), body.skip(22)),
                },
            )
        }
    }

    /// The 22 bytes in front of the user data.
    pub open spec fn fixed_bytes(self) -> Seq<u8> {
        bytes::be16_bytes(self.alarm_type.to_u16()) + bytes::be32_bytes(self.api)
            + bytes::be16_bytes(self.slot) + bytes::be16_bytes(self.subslot) + bytes::be32_bytes(
            self.module_ident,
        ) + bytes::be32_bytes(self.submodule_ident) + bytes::be16_bytes(self.specifier.to_u16())
            + bytes::be16_bytes(self.usi)
    }

    /// The block's body on the wire.
    pub open spec fn spec_bytes(self) -> Seq<u8> {
        self.fixed_bytes() + self.data.spec_bytes()
    }

    /// Whether every field is carried whole and reads back as itself.
    pub open spec fn is_canonical(self) -> bool {
        &&& self.alarm_type.is_canonical()
        &&& self.specifier.sequence < 0x0800
        &&& self.data.is_canonical(self.usi)
    }
}

/// The fixed fields of a notification take 22 bytes.
pub proof fn lemma_fixed_len(n: NotificationView)
    ensures
        n.fixed_bytes().len() == 22,
{
}

/// A notification reads back from its bytes.
pub proof fn notification_round_trip(n: NotificationView)
    requires
        n.is_canonical(),
    ensures
        n.fixed_bytes().len() == 22,
        NotificationView::spec_parse(n.spec_bytes()) == Ok::<_, BlockError>(n),
{
    let b = n.spec_bytes();
    let f = n.fixed_bytes();
    assert(f.len() == 22);
    assert(b.take(22) =~= f);
    assert(b.skip(22) =~= n.data.spec_bytes());
    user_data_round_trip(n.data, n.usi);
    alarm_type_round_trip(0, n.alarm_type);
    alarm_specifier_round_trip(n.specifier);
    eth::lemma_at_16(b, 0, n.alarm_type.to_u16());
    bytes::lemma_be32_round_trip(n.api, b.take(2), b.skip(6));
    assert(b.take(2) + bytes::be32_bytes(n.api) + b.skip(6) =~= b);
    eth::lemma_at_16(b, 6, n.slot);
    eth::lemma_at_16(b, 8, n.subslot);
    bytes::lemma_be32_round_trip(n.module_ident, b.take(10), b.skip(14));
    assert(b.take(10) + bytes::be32_bytes(n.module_ident) + b.skip(14) =~= b);
    bytes::lemma_be32_round_trip(n.submodule_ident, b.take(14), b.skip(18));
    assert(b.take(14) + bytes::be32_bytes(n.submodule_ident) + b.skip(18) =~= b);
    eth::lemma_at_16(b, 18, n.specifier.to_u16());
    eth::lemma_at_16(b, 20, n.usi);
}

/// AlarmAck block body (BlockType `0x8001` High / `0x8002` Low).
#[derive(Debug, Clone, Copy, PartialEq, Eq, Structural)]
pub struct AlarmAck {
    pub alarm_type: AlarmType,
    pub api: u32,
    pub slot: u16,
    pub subslot: u16,
    pub specifier: AlarmSpecifier,
    pub status: PnioStatus,
}

impl AlarmAck {
    /// Where the first field that does not fit in `len` bytes ends.
    pub open spec fn first_end_beyond(len: int) -> int {
        if len < 2 {
            2
        } else if len < 6 {
            6
        } else if len < 12 {
            len / 2 * 2 + 2
        } else {
            16
        }
    }

    /// What an acknowledgement block's body reads as.
    pub open spec fn spec_parse(body: Seq<u8>) -> Result<AlarmAck, BlockError> {
        if body.len() < 16 {
            Err(block::short(body, Self::first_end_beyond(body.len() as int)))
        } else {
            Ok(
                AlarmAck {
                    alarm_type: AlarmType::from_u16(bytes::be16(body, 0)),
                    api: bytes::be32(body, 2),
                    slot: bytes::be16(body, 6),
                    subslot: bytes::be16(body, 8),
                    specifier: AlarmSpecifier::from_u16(bytes::be16(body, 10)),
                    status: PnioStatus(bytes::be32(body, 12)),
                },
            )
        }
    }

    /// The block's body on the wire.
    pub open spec fn spec_bytes(self) -> Seq<u8> {
        bytes::be16_bytes(self.alarm_type.to_u16()) + bytes::be32_bytes(self.api)
            + bytes::be16_bytes(self.slot) + bytes::be16_bytes(self.subslot) + bytes::be16_bytes(
            self.specifier.to_u16(),
        ) + bytes::be32_bytes(self.status.0)
    }

    /// Whether every field is carried whole and reads back as itself.
    pub open spec fn is_canonical(self) -> bool {
        &&& self.alarm_type.is_canonical()
        &&& self.specifier.sequence < 0x0800
    }
}

/// An acknowledgement reads back from its bytes.
pub proof fn alarm_ack_round_trip(a: AlarmAck)
    requires
        a.is_canonical(),
    ensures
        a.spec_bytes().len() == 16,
        AlarmAck::spec_parse(a.spec_bytes()) == Ok::<_, BlockError>(a),
{
    let b = a.spec_bytes();
    assert(b.len() == 16);
    alarm_type_round_trip(0, a.alarm_type);
    alarm_specifier_round_trip(a.specifier);
    eth::lemma_at_16(b, 0, a.alarm_type.to_u16());
    bytes::lemma_be32_round_trip(a.api, b.take(2), b.skip(6));
    assert(b.take(2) + bytes::be32_bytes(a.api) + b.skip(6) =~= b);
    eth::lemma_at_16(b, 6, a.slot);
    eth::lemma_at_16(b, 8, a.subslot);
    eth::lemma_at_16(b, 10, a.specifier.to_u16());
    bytes::lemma_be32_round_trip(a.status.0, b.take(12), b.skip(16));
    assert(b.take(12) + bytes::be32_bytes(a.status.0) + b.skip(16) =~= b);
}

/// The parsed content of an RTA DATA PDU's single PNIO block.
#[derive(Debug, Clone, PartialEq, Eq)]
pub enum RtaData {
    Notification(AlarmNotification),
    Ack(AlarmAck),
    Unknown { block_type: u16, body: Vec<u8> },
}

/// What a [`RtaData`] holds.
pub enum RtaDataView {
    Notification(NotificationView),
    Ack(AlarmAck),
    Unknown(u16, Seq<u8>),
}

impl View for RtaData {
    type V = RtaDataView;

    open spec fn view(&self) -> RtaDataView {
        match *self {
            RtaData::Notification(n) => RtaDataView::Notification(n@),
            RtaData::Ack(a) => RtaDataView::Ack(a),
            RtaData::Unknown { block_type, body } => RtaDataView::Unknown(block_type, body@),
        }
    }
}

impl RtaDataView {
    /// What the block of a DATA PDU reads as.
    pub open spec fn spec_parse(var_part: Seq<u8>) -> Result<RtaDataView, BlockError> {
        match BlockHeader::spec_parse(var_part) {
            Err(e) => Err(e),
            Ok((h, body)) => if h.block_type == 0x0001 || h.block_type == 0x0002 {
                match NotificationView::spec_parse(body) {
                    Ok(n) => Ok(RtaDataView::Notification(n)),
                    Err(e) => Err(e),
                }
            } else if h.block_type == 0x8001 || h.block_type == 0x8002 {
                match AlarmAck::spec_parse(body) {
                    Ok(a) => Ok(RtaDataView::Ack(a)),
                    Err(e) => Err(e),
                }
            } else {
                Ok(RtaDataView::Unknown(h.block_type, body))
            },
        }
    }

    /// The BlockType the content is sent under on a channel.
    pub open spec fn block_type(self, priority: Priority) -> u16 {
        match (self, priority) {
            (RtaDataView::Notification(_), Priority::High) => 0x0001,
            (RtaDataView::Notification(_), Priority::Low) => 0x0002,
            (RtaDataView::Ack(_), Priority::High) => 0x8001,
            (RtaDataView::Ack(_), Priority::Low) => 0x8002,
            (RtaDataView::Unknown(t, _), _) => t,
        }
    }

    /// The block's body on the wire.
    pub open spec fn body_bytes(self) -> Seq<u8> {
        match self {
            RtaDataView::Notification(n) => n.spec_bytes(),
            RtaDataView::Ack(a) => a.spec_bytes(),
            RtaDataView::Unknown(_, body) => body,
        }
    }

    /// The whole block on the wire.
    pub open spec fn spec_bytes(self, priority: Priority) -> Seq<u8> {
        block::header_bytes(self.block_type(priority), self.body_bytes().len() as int)
            + self.body_bytes()
    }

    /// Whether every field is carried whole and reads back as itself.
    pub open spec fn is_canonical(self) -> bool {
        match self {
            RtaDataView::Notification(n) => n.is_canonical(),
            RtaDataView::Ack(a) => a.is_canonical(),
            RtaDataView::Unknown(t, _) => t != 0x0001 && t != 0x0002 && t != 0x8001 && t != 0x8002,
        }
    }
}

/// The RTA-PDU body, keyed by `PduType`.
#[derive(Debug, Clone, PartialEq, Eq)]
pub enum RtaBody {
    Data(RtaData),
    Ack,
    Nack,
    Error(PnioStatus),
}

/// What a [`RtaBody`] holds.
pub enum RtaBodyView {
    Data(RtaDataView),
    Ack,
    Nack,
    Error(PnioStatus),
}

impl View for RtaBody {
    type V = RtaBodyView;

    open spec fn view(&self) -> RtaBodyView {
        match *self {
            RtaBody::Data(d) => RtaBodyView::Data(d@),
            RtaBody::Ack => RtaBodyView::Ack,
            RtaBody::Nack => RtaBodyView::Nack,
            RtaBody::Error(s) => RtaBodyView::Error(s),
        }
    }
}

impl RtaBodyView {
    /// The PDU type that announces the body.
    pub open spec fn pdu_type(self) -> PduType {
        match self {
            RtaBodyView::Data(_) => PduType::Data,
            RtaBodyView::Ack => PduType::Ack,
            RtaBodyView::Nack => PduType::Nack,
            RtaBodyView::Error(_) => PduType::Error,
        }
    }

    /// What the variable part of a PDU of the given type reads as.
    pub open spec fn spec_parse(pdu_type: PduType, var_part: Seq<u8>) -> Result<
        RtaBodyView,
        RtaError,
    > {
        match pdu_type {
            PduType::Ack => Ok(RtaBodyView::Ack),
            PduType::Nack => Ok(RtaBodyView::Nack),
            PduType::Error => if var_part.len() < 4 {
                Err(RtaError::TooShort)
            } else {
                Ok(RtaBodyView::Error(PnioStatus(bytes::be32(var_part, 0))))
            },
            PduType::Data => match RtaDataView::spec_parse(var_part) {
                Ok(d) => Ok(RtaBodyView::Data(d)),
                Err(e) => Err(RtaError::Block(e)),
            },
        }
    }

    /// The variable part on the wire.
    pub open spec fn spec_bytes(self, priority: Priority) -> Seq<u8> {
        match self {
            RtaBodyView::Data(d) => d.spec_bytes(priority),
            RtaBodyView::Error(s) => bytes::be32_bytes(s.0),
            _ => Seq::empty(),
        }
    }

    /// Whether the block of a DATA body is short enough for its length field.
    pub open spec fn fits(self) -> bool {
        self matches RtaBodyView::Data(d) ==> d.body_bytes().len() + 2 <= u16::MAX
    }
}

/// A fully parsed/to-be-built alarm frame: channel, RTA header, and body.
#[derive(Debug, Clone, PartialEq, Eq)]
pub struct RtaPdu {
    pub priority: Priority,
    pub header: RtaHeader,
    pub body: RtaBody,
}

/// What a [`RtaPdu`] holds.
pub struct RtaPduView {
    pub priority: Priority,
    pub header: RtaHeader,
    pub body: RtaBodyView,
}

impl View for RtaPdu {
    type V = RtaPduView;

    open spec fn view(&self) -> RtaPduView {
        RtaPduView { priority: self.priority, header: self.header, body: self.body@ }
    }
}

/// What follows an alarm FrameID reads as.
pub open spec fn spec_parse_pdu(priority: Priority, b: Seq<u8>) -> Result<RtaPduView, RtaError> {
    match RtaHeader::spec_parse(b) {
        Err(e) => Err(e),
        Ok((header, len)) => if len > b.len() - 12 {
            Err(RtaError::BadVarPartLen { declared: len, available: (b.len() - 12) as usize })
        } else {
            match RtaBodyView::spec_parse(header.pdu_type, b.subrange(12, 12 + len)) {
                Err(e) => Err(e),
                Ok(body) => Ok(RtaPduView { priority, header, body }),
            }
        },
    }
}

/// What a frame reads as: a PROFINET frame with an alarm FrameID, the RTA header, and a
/// variable part of the declared length; bytes behind it are padding.
pub open spec fn spec_parse_frame(frame: Seq<u8>) -> Result<RtaPduView, RtaError> {
    match EthHeader::spec_parse(frame) {
        Err(e) => Err(RtaError::Eth(e)),
        Ok((h, off)) => if h.ethertype != ETHERTYPE_PROFINET {
            Err(RtaError::NotAlarm)
        } else if frame.len() < off + 2 {
            Err(RtaError::TooShort)
        } else {
            match Priority::of_frame_id(bytes::be16(frame, off as int)) {
                None => Err(RtaError::NotAlarm),
                Some(priority) => spec_parse_pdu(priority, frame.skip(off + 2)),
            }
        },
    }
}

/// Parses a complete Ethernet frame (`0x8892`, alarm FrameID) into an `RtaPdu`.
pub fn parse_frame(frame: &[u8]) -> (res: Result<RtaPdu, RtaError>)
    ensures
        match res {
            Ok(pdu) => spec_parse_frame(frame@) == Ok::<_, RtaError>(pdu@),
            Err(e) => spec_parse_frame(frame@) == Err::<RtaPduView, _>(e),
        },
{
    let (eth, off) = match EthHeader::parse(frame) {
        Ok(x) => x,
        Err(e) => {
            return Err(RtaError::Eth(e));
        },
    };
    if eth.ethertype != ETHERTYPE_PROFINET {
        return Err(RtaError::NotAlarm);
    }
    if frame.len() < off + 2 {
        return Err(RtaError::TooShort);
    }
    let frame_id: u16 = bytes::read_be16(frame, off);
    let priority = if frame_id == FRAME_ID_HIGH {
        Priority::High
    } else if frame_id == FRAME_ID_LOW {
        Priority::Low
    } else {
        return Err(RtaError::NotAlarm);
    };
    let rta = slice_subrange(frame, off + 2, frame.len());
    assert(rta@ =~= frame@.skip(off + 2));
    let (header, var_part_len) = RtaHeader::parse(rta)?;
    let available: usize = rta.len() - RtaHeader::LEN;
    if var_part_len as usize > available {
        return Err(RtaError::BadVarPartLen { declared: var_part_len, available });
    }
    let var_part = slice_subrange(rta, RtaHeader::LEN, RtaHeader::LEN + var_part_len as usize);
    let body = match header.pdu_type {
        PduType::Ack => RtaBody::Ack,
        PduType::Nack => RtaBody::Nack,
        PduType::Error => {
            if var_part.len() < 4 {
                return Err(RtaError::TooShort);
            }
            RtaBody::Error(PnioStatus(bytes::read_be32(var_part, 0)))
        },
        PduType::Data => match parse_rta_data(var_part) {
            Ok(d) => RtaBody::Data(d),
            Err(e) => {
                return Err(RtaError::Block(e));
            },
        },
    };
    Ok(RtaPdu { priority, header, body })
}

fn parse_rta_data(var_part: &[u8]) -> (res: Result<RtaData, BlockError>)
    ensures
        match res {
            Ok(d) => RtaDataView::spec_parse(var_part@) == Ok::<_, BlockError>(d@),
            Err(e) => RtaDataView::spec_parse(var_part@) == Err::<RtaDataView, _>(e),
        },
{
    let (header, body) = BlockHeader::parse(var_part)?;
    let t: u16 = header.block_type;
    if t == 0x0001 || t == 0x0002 {
        let n = parse_notification(body)?;
        Ok(RtaData::Notification(n))
    } else if t == 0x8001 || t == 0x8002 {
        let a = parse_ack(body)?;
        Ok(RtaData::Ack(a))
    } else {
        Ok(RtaData::Unknown { block_type: t, body: slice_to_vec(body) })
    }
}

fn parse_notification(body: &[u8]) -> (res: Result<AlarmNotification, BlockError>)
    ensures
        match res {
            Ok(n) => NotificationView::spec_parse(body@) == Ok::<_, BlockError>(n@),
            Err(e) => NotificationView::spec_parse(body@) == Err::<NotificationView, _>(e),
        },
{
    let mut c = Cursor::new(body);
    let alarm_type = AlarmType::from_u16(c.u16()?);
    let api: u32 = c.u32()?;
    let slot: u16 = c.u16()?;
    let subslot: u16 = c.u16()?;
    let module_ident: u32 = c.u32()?;
    let submodule_ident: u32 = c.u32()?;
    let specifier = AlarmSpecifier::from_u16(c.u16()?);
    let usi: u16 = c.u16()?;
    let n: usize = c.remaining();
    let data_bytes = c.bytes(n)?;
    assert(data_bytes@ =~= body@.skip(22));
    let data = if usi == USI_CHANNEL_DIAG && data_bytes.len() == 6 {
        UserData::Channel(ChannelDiagnosis::parse(data_bytes))
    } else if usi == USI_EXT_CHANNEL_DIAG && data_bytes.len() == 12 {
        UserData::ExtChannel(ExtChannelDiagnosis::parse(data_bytes))
    } else {
        UserData::Raw(slice_to_vec(data_bytes))
    };
    Ok(
        AlarmNotification {
            alarm_type,
            api,
            slot,
            subslot,
            module_ident,
            submodule_ident,
            specifier,
            usi,
            data,
        },
    )
}

fn parse_ack(body: &[u8]) -> (res: Result<AlarmAck, BlockError>)
    ensures
        res == AlarmAck::spec_parse(body@),
{
    let mut c = Cursor::new(body);
    let alarm_type = AlarmType::from_u16(c.u16()?);
    let api: u32 = c.u32()?;
    let slot: u16 = c.u16()?;
    let subslot: u16 = c.u16()?;
    let specifier = AlarmSpecifier::from_u16(c.u16()?);
    let status = PnioStatus(c.u32()?);
    Ok(AlarmAck { alarm_type, api, slot, subslot, specifier, status })
}

/// The Ethernet header of an alarm frame.
pub open spec fn alarm_eth(dst: MacAddr, src: MacAddr, priority: Priority) -> EthHeader {
    EthHeader { dst, src, vlan: Some(priority.tci()), ethertype: ETHERTYPE_PROFINET }
}

/// The bytes of an alarm frame with a given variable part. The declared length is the low 16
/// bits of the length of the variable part.
pub open spec fn frame_around(
    dst: MacAddr,
    src: MacAddr,
    priority: Priority,
    header: RtaHeader,
    var_part: Seq<u8>,
) -> Seq<u8> {
    alarm_eth(dst, src, priority).spec_bytes() + bytes::be16_bytes(priority.frame_id())
        + header.spec_bytes(var_part.len() as u16) + var_part
}

/// The bytes of an alarm frame: tagged with the channel's priority, not padded.
pub open spec fn frame_bytes(dst: MacAddr, src: MacAddr, pdu: RtaPduView) -> Seq<u8> {
    frame_around(dst, src, pdu.priority, pdu.header, pdu.body.spec_bytes(pdu.priority))
}

/// Builds a complete Ethernet frame from an `RtaPdu`. Does not pad to 60 bytes: the NIC pads
/// on the wire.
pub fn build_frame(dst: MacAddr, src: MacAddr, pdu: &RtaPdu) -> (out: Vec<u8>)
    requires
        pdu.body@.fits(),
    ensures
        out@ == frame_bytes(dst, src, pdu@),
{
    let mut var_part: Vec<u8> = Vec::new();
    match &pdu.body {
        RtaBody::Ack => {},
        RtaBody::Nack => {},
        RtaBody::Error(status) => {
            bytes::put_be32(&mut var_part, status.to_u32());
        },
        RtaBody::Data(data) => {
            write_rta_data(&mut var_part, data, pdu.priority);
        },
    }
    assert(var_part@ =~= pdu.body@.spec_bytes(pdu.priority));
    assemble_frame(dst, src, pdu.priority, &pdu.header, var_part.as_slice())
}

/// Puts Ethernet header, FrameID and RTA header in front of a variable part.
pub(crate) fn assemble_frame(
    dst: MacAddr,
    src: MacAddr,
    priority: Priority,
    header: &RtaHeader,
    var_part: &[u8],
) -> (out: Vec<u8>)
    ensures
        out@ == frame_around(dst, src, priority, *header, var_part@),
{
    let mut out: Vec<u8> = Vec::new();
    let eth = EthHeader { dst, src, vlan: Some(priority.tci()), ethertype: ETHERTYPE_PROFINET };
    eth.write(&mut out);
    bytes::put_be16(&mut out, priority.frame_id());
    header.write(&mut out, var_part.len() as u16);
    bytes::put_all(&mut out, var_part);
    assert(out@ =~= frame_around(dst, src, priority, *header, var_part@));
    out
}

fn write_rta_data(out: &mut Vec<u8>, data: &RtaData, priority: Priority)
    requires
        data@.body_bytes().len() + 2 <= u16::MAX,
    ensures
        final(out)@ == old(out)@ + data@.spec_bytes(priority),
{
    match data {
        RtaData::Notification(n) => {
            write_notification(out, n, priority);
        },
        RtaData::Ack(a) => {
            write_ack(out, a, priority);
        },
        RtaData::Unknown { block_type, body } => {
            BlockHeader::write(out, *block_type, body.len() as u16);
            bytes::put_all(out, body.as_slice());
        },
    }
    assert(out@ =~= old(out)@ + data@.spec_bytes(priority));
}

/// Appends a notification block as it goes out on a channel.
pub(crate) fn write_notification(out: &mut Vec<u8>, n: &AlarmNotification, priority: Priority)
    requires
        n@.spec_bytes().len() + 2 <= u16::MAX,
    ensures
        final(out)@ == old(out)@ + RtaDataView::Notification(n@).spec_bytes(priority),
{
    let block_type: u16 = match priority {
        Priority::High => 0x0001,
        Priority::Low => 0x0002,
    };
    let mut body: Vec<u8> = Vec::new();
    write_fixed(&mut body, n);
    match &n.data {
        UserData::Channel(d) => {
            d.write(&mut body);
        },
        UserData::ExtChannel(d) => {
            d.write(&mut body);
        },
        UserData::Raw(bytes) => {
            bytes::put_all(&mut body, bytes.as_slice());
        },
    }
    assert(body@ =~= n@.spec_bytes());
    BlockHeader::write(out, block_type, body.len() as u16);
    bytes::put_all(out, body.as_slice());
    assert(out@ =~= old(out)@ + RtaDataView::Notification(n@).spec_bytes(priority));
}

fn write_fixed(out: &mut Vec<u8>, n: &AlarmNotification)
    ensures
        final(out)@ == old(out)@ + n@.fixed_bytes(),
{
    broadcast use bytes::lemma_add_assoc;

    bytes::put_be16(out, n.alarm_type.to_u16());
    bytes::put_be32(out, n.api);
    bytes::put_be16(out, n.slot);
    bytes::put_be16(out, n.subslot);
    bytes::put_be32(out, n.module_ident);
    bytes::put_be32(out, n.submodule_ident);
    bytes::put_be16(out, n.specifier.to_u16());
    bytes::put_be16(out, n.usi);
}

fn write_ack(out: &mut Vec<u8>, a: &AlarmAck, priority: Priority)
    ensures
        final(out)@ == old(out)@ + RtaDataView::Ack(*a).spec_bytes(priority),
{
    let block_type: u16 = match priority {
        Priority::High => 0x8001,
        Priority::Low => 0x8002,
    };
    let mut body: Vec<u8> = Vec::new();
    bytes::put_be16(&mut body, a.alarm_type.to_u16());
    bytes::put_be32(&mut body, a.api);
    bytes::put_be16(&mut body, a.slot);
    bytes::put_be16(&mut body, a.subslot);
    bytes::put_be16(&mut body, a.specifier.to_u16());
    bytes::put_be32(&mut body, a.status.to_u32());
    assert(body@ =~= a.spec_bytes());
    assert(body@.len() == 16);
    BlockHeader::write(out, block_type, body.len() as u16);
    bytes::put_all(out, body.as_slice());
    assert(out@ =~= old(out)@ + RtaDataView::Ack(*a).spec_bytes(priority));
}

/// Whether a frame belongs to an alarm channel: a PROFINET frame with one of the two alarm
/// FrameIDs, tagged or not.
pub open spec fn is_alarm(frame: Seq<u8>) -> bool {
    match EthHeader::spec_parse(frame) {
        Ok((h, off)) => {
            &&& h.ethertype == ETHERTYPE_PROFINET
            &&& frame.len() >= off + 2
            &&& Priority::of_frame_id(bytes::be16(frame, off as int)) is Some
        },
        Err(_) => false,
    }
}

/// True if `frame` is a PROFINET alarm frame (tagged or untagged `0x8892` with FrameID
/// `0xFC01`/`0xFE01`).
pub fn is_alarm_frame(frame: &[u8]) -> (r: bool)
    ensures
        r == is_alarm(frame@),
{
    match EthHeader::parse(frame) {
        Ok((eth, off)) => {
            if eth.ethertype != ETHERTYPE_PROFINET || frame.len() < off + 2 {
                return false;
            }
            let id: u16 = bytes::read_be16(frame, off);
            id == FRAME_ID_HIGH || id == FRAME_ID_LOW
        },
        Err(_) => false,
    }
}

/// Only alarm frames parse.
pub proof fn only_alarm_frames_parse(frame: Seq<u8>)
    ensures
        spec_parse_frame(frame) is Ok ==> is_alarm(frame),
{
}

/// The content of a DATA PDU reads back from its block.
pub proof fn rta_data_round_trip(d: RtaDataView, priority: Priority)
    requires
        d.is_canonical(),
        d.body_bytes().len() + 2 <= u16::MAX,
    ensures
        RtaDataView::spec_parse(d.spec_bytes(priority)) == Ok::<_, BlockError>(d),
{
    let none = Seq::<u8>::empty();
    block::block_round_trip(d.block_type(priority), d.body_bytes(), none);
    assert(d.spec_bytes(priority) + none =~= d.spec_bytes(priority));
    match d {
        RtaDataView::Notification(n) => {
            notification_round_trip(n);
        },
        RtaDataView::Ack(a) => {
            alarm_ack_round_trip(a);
        },
        RtaDataView::Unknown(..) => {},
    }
}

/// The variable part of a PDU reads back.
proof fn lemma_body_round_trip(body: RtaBodyView, priority: Priority)
    requires
        body matches RtaBodyView::Data(d) ==> d.is_canonical(),
        body.spec_bytes(priority).len() <= u16::MAX,
    ensures
        RtaBodyView::spec_parse(body.pdu_type(), body.spec_bytes(priority)) == Ok::<_, RtaError>(
            body,
        ),
{
    match body {
        RtaBodyView::Data(d) => {
            assert(d.spec_bytes(priority).len() == 6 + d.body_bytes().len());
            rta_data_round_trip(d, priority);
        },
        RtaBodyView::Error(s) => {
            let none = Seq::<u8>::empty();
            bytes::lemma_be32_round_trip(s.0, none, none);
            assert(none + bytes::be32_bytes(s.0) + none =~= body.spec_bytes(priority));
        },
        _ => {},
    }
}

/// The front of a built frame: Ethernet header and FrameID, then the RTA header.
pub proof fn lemma_frame_front(
    dst: MacAddr,
    src: MacAddr,
    priority: Priority,
    header: RtaHeader,
    var_part: Seq<u8>,
    padding: Seq<u8>,
)
    ensures
        ({
            let b = frame_around(dst, src, priority, header, var_part) + padding;
            &&& EthHeader::spec_parse(b) == Ok::<_, EthError>(
                (alarm_eth(dst, src, priority), 18usize),
            )
            &&& b.len() >= 20
            &&& bytes::be16(b, 18) == priority.frame_id()
            &&& b.skip(20) == header.spec_bytes(var_part.len() as u16) + (var_part + padding)
        }),
{
    let e = alarm_eth(dst, src, priority);
    let id = bytes::be16_bytes(priority.frame_id());
    let h = header.spec_bytes(var_part.len() as u16);
    let b = frame_around(dst, src, priority, header, var_part) + padding;
    let rest = id + (h + (var_part + padding));
    eth::eth_header_round_trip(e, rest);
    assert(e.spec_bytes().len() == 18);
    assert(b =~= e.spec_bytes() + rest);
    assert(b.subrange(18, 20) =~= id);
    eth::lemma_at_16(b, 18, priority.frame_id());
    assert(b.skip(20) =~= h + (var_part + padding));
}

/// A built frame is an alarm frame from `src` to `dst` that reads back as what it was built
/// from, padded or not. Left out are PDUs whose header announces another body, whose fields
/// do not fit their bits, and whose variable part is longer than its length field can say.
pub proof fn alarm_frame_round_trip(dst: MacAddr, src: MacAddr, pdu: RtaPduView, padding: Seq<u8>)
    requires
        pdu.header.pdu_type == pdu.body.pdu_type(),
        pdu.body matches RtaBodyView::Data(d) ==> d.is_canonical(),
        pdu.body.spec_bytes(pdu.priority).len() <= u16::MAX,
    ensures
        EthHeader::spec_parse(frame_bytes(dst, src, pdu) + padding) == Ok::<_, EthError>(
            (alarm_eth(dst, src, pdu.priority), 18usize),
        ),
        is_alarm(frame_bytes(dst, src, pdu) + padding),
        spec_parse_frame(frame_bytes(dst, src, pdu) + padding) == Ok::<_, RtaError>(pdu),
{
    let var_part = pdu.body.spec_bytes(pdu.priority);
    let len = var_part.len() as u16;
    lemma_frame_front(dst, src, pdu.priority, pdu.header, var_part, padding);
    rta_header_round_trip(pdu.header, len, var_part + padding);
    let rest = pdu.header.spec_bytes(len) + (var_part + padding);
    assert(rest.subrange(12, 12 + len) =~= var_part);
    lemma_body_round_trip(pdu.body, pdu.priority);
}

// ---------------------------------------------------------------------------------
// Laws of the wire
// ---------------------------------------------------------------------------------

/// The two channels and their numbers.
pub proof fn channels_have_their_numbers(p: Priority, id: u16)
    ensures
        p.frame_id() == 0xFC01 <==> p == Priority::High,
        p.frame_id() == 0xFE01 <==> p == Priority::Low,
        p.tci() / 0x2000 == 6 <==> p == Priority::High,
        p.tci() / 0x2000 == 5 <==> p == Priority::Low,
        p.tci() % 0x2000 == 0,
        Priority::of_frame_id(id) == Some(p) <==> id == p.frame_id(),
        Priority::of_frame_id(id) is None <==> id != 0xFC01 && id != 0xFE01,
{
}

/// The numbers of the PDU types.
pub proof fn pdu_types_have_their_numbers(t: PduType)
    ensures
        t.number() == 1 <==> t == PduType::Data,
        t.number() == 2 <==> t == PduType::Nack,
        t.number() == 3 <==> t == PduType::Ack,
        t.number() == 4 <==> t == PduType::Error,
{
}

/// Where the fields of an alarm header stand; its version and its window are both 1.
pub proof fn alarm_headers_stand_at_their_places(h: RtaHeader, len: u16)
    ensures
        ({
            let b = h.spec_bytes(len);
            &&& b.len() == 12
            &&& bytes::be16(b, 0) == h.dst_ref
            &&& bytes::be16(b, 2) == h.src_ref
            &&& b[4] == 16 + h.pdu_type.number()
            &&& b[5] == (if h.tack { 17int } else { 1 })
            &&& bytes::be16(b, 6) == h.send_seq
            &&& bytes::be16(b, 8) == h.ack_seq
            &&& bytes::be16(b, 10) == len
        }),
{
    let b = h.spec_bytes(len);
    eth::lemma_at_16(b, 0, h.dst_ref);
    eth::lemma_at_16(b, 2, h.src_ref);
    eth::lemma_at_16(b, 6, h.send_seq);
    eth::lemma_at_16(b, 8, h.ack_seq);
    eth::lemma_at_16(b, 10, len);
}

/// How an alarm header is read, and why bytes are refused as one.
pub proof fn alarm_headers_are_read_by_place(buf: Seq<u8>)
    ensures
        match RtaHeader::spec_parse(buf) {
            Ok((h, len)) => {
                &&& buf.len() >= 12 && buf[4] / 16 == 1 && buf[4] % 16 == h.pdu_type.number()
                &&& h.dst_ref == bytes::be16(buf, 0) && h.src_ref == bytes::be16(buf, 2)
                &&& h.tack <==> buf[5] / 16 % 2 == 1
                &&& h.send_seq == bytes::be16(buf, 6) && h.ack_seq == bytes::be16(buf, 8)
                &&& len == bytes::be16(buf, 10)
            },
            Err(RtaError::TooShort) => buf.len() < 12,
            Err(RtaError::BadVersion(v)) => buf.len() >= 12 && v == buf[4] / 16 && v != 1,
            Err(RtaError::BadPduType(t)) => buf.len() >= 12 && buf[4] / 16 == 1 && t == buf[4] % 16
                && (t < 1 || t > 4),
            Err(_) => false,
        },
{
}

/// The numbers of the alarm types.
pub proof fn alarm_types_have_their_numbers(t: AlarmType, v: u16)
    ensures
        AlarmType::from_u16(v) == AlarmType::Diagnosis <==> v == 1,
        AlarmType::from_u16(v) == AlarmType::Process <==> v == 2,
        AlarmType::from_u16(v) == AlarmType::Pull <==> v == 3,
        AlarmType::from_u16(v) == AlarmType::Plug <==> v == 4,
        AlarmType::from_u16(v) == AlarmType::Status <==> v == 5,
        AlarmType::from_u16(v) == AlarmType::Update <==> v == 6,
        AlarmType::from_u16(v) == AlarmType::Redundancy <==> v == 7,
        AlarmType::from_u16(v) == AlarmType::ControlledBySupervisor <==> v == 8,
        AlarmType::from_u16(v) == AlarmType::Released <==> v == 9,
        AlarmType::from_u16(v) == AlarmType::PlugWrongSubmodule <==> v == 10,
        AlarmType::from_u16(v) == AlarmType::ReturnOfSubmodule <==> v == 11,
        AlarmType::from_u16(v) == AlarmType::DiagnosisDisappears <==> v == 12,
        AlarmType::from_u16(v) == AlarmType::Other(v) <==> v == 0 || v > 12,
        AlarmType::from_u16(v).to_u16() == v,
{
}

/// The places of an alarm specifier: eleven bits of sequence number, then the flags of channel,
/// manufacturer and submodule diagnosis, and in the highest bit that of the AR.
pub proof fn specifiers_have_their_places(raw: u16)
    ensures
        ({
            let s = AlarmSpecifier::from_u16(raw);
            &&& s.sequence == raw % 2048
            &&& s.channel_diag <==> raw / 2048 % 2 == 1
            &&& s.manufacturer_diag <==> raw / 4096 % 2 == 1
            &&& s.submodule_diag <==> raw / 8192 % 2 == 1
            &&& s.ar_diag <==> raw / 32768 == 1
        }),
{
}

/// The places of the channel properties: eight bits of type, one of accumulation, two of
/// maintenance, two of specifier, three of direction.
pub proof fn properties_have_their_places(raw: u16)
    ensures
        ({
            let p = ChannelProperties::from_u16(raw);
            &&& p.type_ == raw % 256
            &&& p.accumulative <==> raw / 256 % 2 == 1
            &&& p.maintenance.number() == raw / 512 % 4
            &&& p.specifier.number() == raw / 2048 % 4
            &&& p.direction == raw / 8192
        }),
{
}

/// The numbers of maintenance and of the specifier.
pub proof fn maintenance_and_specifier_have_their_numbers(m: Maintenance, s: Specifier)
    ensures
        m.number() == 0 <==> m == Maintenance::Fault,
        m.number() == 1 <==> m == Maintenance::Required,
        m.number() == 2 <==> m == Maintenance::Demanded,
        m.number() == 3 <==> m == Maintenance::Qualified,
        Maintenance::of_number(m.number()) == m,
        s.number() == 0 <==> s == Specifier::AllDisappear,
        s.number() == 1 <==> s == Specifier::Appears,
        s.number() == 2 <==> s == Specifier::Disappears,
        s.number() == 3 <==> s == Specifier::DisappearsOthersRemain,
        Specifier::of_number(s.number()) == s,
{
}

/// Where the fields of a diagnosis stand, and those of one with extensions.
pub proof fn diagnoses_stand_at_their_places(d: ChannelDiagnosis, e: ExtChannelDiagnosis)
    ensures
        ({
            let b = d.spec_bytes();
            &&& b.len() == 6
            &&& bytes::be16(b, 0) == d.channel
            &&& bytes::be16(b, 2) == d.properties.to_u16()
            &&& bytes::be16(b, 4) == d.error_type
        }),
        ({
            let b = e.spec_bytes();
            &&& b.len() == 12
            &&& bytes::be16(b, 0) == e.channel
            &&& bytes::be16(b, 2) == e.properties.to_u16()
            &&& bytes::be16(b, 4) == e.error_type
            &&& bytes::be16(b, 6) == e.ext_error_type
            &&& bytes::be32(b, 8) == e.ext_add_value
        }),
{
    let b = d.spec_bytes();
    eth::lemma_at_16(b, 0, d.channel);
    eth::lemma_at_16(b, 2, d.properties.to_u16());
    eth::lemma_at_16(b, 4, d.error_type);
    let c = e.spec_bytes();
    eth::lemma_at_16(c, 0, e.channel);
    eth::lemma_at_16(c, 2, e.properties.to_u16());
    eth::lemma_at_16(c, 4, e.error_type);
    eth::lemma_at_16(c, 6, e.ext_error_type);
    bytes::lemma_be32_round_trip(e.ext_add_value, c.take(8), Seq::empty());
    assert(c.take(8) + bytes::be32_bytes(e.ext_add_value) + Seq::<u8>::empty() =~= c);
}

/// How user data is read: the diagnosis that the identifier names, by the places of its fields,
/// where the length is right; else as it stands.
pub proof fn user_data_is_read_by_its_identifier(usi: u16, b: Seq<u8>)
    ensures
        match UserDataView::of(usi, b) {
            UserDataView::Channel(d) => {
                &&& usi == 0x8000 && b.len() == 6
                &&& d.channel == bytes::be16(b, 0) && d.error_type == bytes::be16(b, 4)
                &&& d.properties == ChannelProperties::from_u16(bytes::be16(b, 2))
            },
            UserDataView::ExtChannel(d) => {
                &&& usi == 0x8002 && b.len() == 12
                &&& d.channel == bytes::be16(b, 0) && d.error_type == bytes::be16(b, 4)
                &&& d.properties == ChannelProperties::from_u16(bytes::be16(b, 2))
                &&& d.ext_error_type == bytes::be16(b, 6) && d.ext_add_value == bytes::be32(b, 8)
            },
            UserDataView::Raw(r) => {
                &&& r == b
                &&& !(usi == 0x8000 && b.len() == 6) && !(usi == 0x8002 && b.len() == 12)
            },
        },
{
}

/// Where the fields of a notification stand, in front of its user data.
pub proof fn notifications_stand_at_their_places(n: NotificationView)
    ensures
        ({
            let b = n.spec_bytes();
            &&& b.len() == 22 + n.data.spec_bytes().len()
            &&& bytes::be16(b, 0) == n.alarm_type.to_u16()
            &&& bytes::be32(b, 2) == n.api
            &&& bytes::be16(b, 6) == n.slot
            &&& bytes::be16(b, 8) == n.subslot
            &&& bytes::be32(b, 10) == n.module_ident
            &&& bytes::be32(b, 14) == n.submodule_ident
            &&& bytes::be16(b, 18) == n.specifier.to_u16()
            &&& bytes::be16(b, 20) == n.usi
            &&& b.skip(22) == n.data.spec_bytes()
        }),
{
    let b = n.spec_bytes();
    lemma_fixed_len(n);
    eth::lemma_at_16(b, 0, n.alarm_type.to_u16());
    lemma_at_32(b, 2, n.api);
    eth::lemma_at_16(b, 6, n.slot);
    eth::lemma_at_16(b, 8, n.subslot);
    lemma_at_32(b, 10, n.module_ident);
    lemma_at_32(b, 14, n.submodule_ident);
    eth::lemma_at_16(b, 18, n.specifier.to_u16());
    eth::lemma_at_16(b, 20, n.usi);
    assert(b.skip(22) =~= n.data.spec_bytes());
}

/// A sequence that holds the four bytes of `v` at `i` reads as `v` there.
proof fn lemma_at_32(b: Seq<u8>, i: int, v: u32)
    requires
        0 <= i,
        i + 4 <= b.len(),
        b.subrange(i, i + 4) =~= bytes::be32_bytes(v),
    ensures
        bytes::be32(b, i) == v,
{
    bytes::lemma_be32_round_trip(v, b.take(i), b.skip(i + 4));
    assert(b.take(i) + bytes::be32_bytes(v) + b.skip(i + 4) =~= b);
}

/// How a notification is read: it is refused just where it ends before its fixed fields do.
pub proof fn notifications_are_read_by_place(body: Seq<u8>)
    ensures
        match NotificationView::spec_parse(body) {
            Ok(n) => {
                &&& body.len() >= 22
                &&& n.alarm_type == AlarmType::from_u16(bytes::be16(body, 0))
                &&& n.api == bytes::be32(body, 2)
                &&& n.slot == bytes::be16(body, 6) && n.subslot == bytes::be16(body, 8)
                &&& n.module_ident == bytes::be32(body, 10)
                &&& n.submodule_ident == bytes::be32(body, 14)
                &&& n.specifier == AlarmSpecifier::from_u16(bytes::be16(body, 18))
                &&& n.usi == bytes::be16(body, 20)
                &&& n.data == UserDataView::of(n.usi, body.skip(22))
            },
            Err(BlockError::TooShort { need, have }) => {
                let len = body.len() as int;
                &&& len < 22 && have == len && len < need
                &&& len < 2 ==> need == 2
                &&& 2 <= len < 6 ==> need == 6
                &&& 10 <= len < 14 ==> need == 14
                &&& 14 <= len < 18 ==> need == 18
                &&& 6 <= len < 10 || len >= 18 ==> need <= len + 2 && need % 2 == 0
            },
            Err(_) => false,
        },
{
}

/// Where the fields of an acknowledgement stand.
pub proof fn acknowledgements_stand_at_their_places(a: AlarmAck)
    ensures
        ({
            let b = a.spec_bytes();
            &&& b.len() == 16
            &&& bytes::be16(b, 0) == a.alarm_type.to_u16()
            &&& bytes::be32(b, 2) == a.api
            &&& bytes::be16(b, 6) == a.slot
            &&& bytes::be16(b, 8) == a.subslot
            &&& bytes::be16(b, 10) == a.specifier.to_u16()
            &&& bytes::be32(b, 12) == a.status.0
        }),
{
    let b = a.spec_bytes();
    eth::lemma_at_16(b, 0, a.alarm_type.to_u16());
    lemma_at_32(b, 2, a.api);
    eth::lemma_at_16(b, 6, a.slot);
    eth::lemma_at_16(b, 8, a.subslot);
    eth::lemma_at_16(b, 10, a.specifier.to_u16());
    lemma_at_32(b, 12, a.status.0);
}

/// How an acknowledgement is read: it is refused just where it ends before its fields do.
pub proof fn acknowledgements_are_read_by_place(body: Seq<u8>)
    ensures
        match AlarmAck::spec_parse(body) {
            Ok(a) => {
                &&& body.len() >= 16
                &&& a.alarm_type == AlarmType::from_u16(bytes::be16(body, 0))
                &&& a.api == bytes::be32(body, 2)
                &&& a.slot == bytes::be16(body, 6) && a.subslot == bytes::be16(body, 8)
                &&& a.specifier == AlarmSpecifier::from_u16(bytes::be16(body, 10))
                &&& a.status.0 == bytes::be32(body, 12)
            },
            Err(BlockError::TooShort { need, have }) => body.len() < 16 && have == body.len()
                && have < need <= have + 4 && need <= 16,
            Err(_) => false,
        },
{
}

/// The types of the blocks: 1 and 2 for a notification, with the highest bit set for an
/// acknowledgement; the odd ones on the high channel.
pub proof fn alarm_blocks_have_their_types(n: NotificationView, a: AlarmAck, p: Priority)
    ensures
        ({
            let low = if p == Priority::Low { 1int } else { 0 };
            &&& RtaDataView::Notification(n).block_type(p) == 1 + low
            &&& RtaDataView::Ack(a).block_type(p) == 0x8001 + low
        }),
{
}

/// What the block of a DATA is read as, by its type.
pub proof fn alarm_blocks_are_read_by_type(var_part: Seq<u8>)
    ensures
        match (BlockHeader::spec_parse(var_part), RtaDataView::spec_parse(var_part)) {
            (Err(e), Err(f)) => e == f,
            (Ok((h, body)), Ok(RtaDataView::Notification(n))) => (h.block_type == 1 || h.block_type
                == 2) && NotificationView::spec_parse(body) == Ok::<_, BlockError>(n),
            (Ok((h, body)), Ok(RtaDataView::Ack(a))) => (h.block_type == 0x8001 || h.block_type
                == 0x8002) && AlarmAck::spec_parse(body) == Ok::<_, BlockError>(a),
            (Ok((h, body)), Ok(RtaDataView::Unknown(t, b))) => t == h.block_type && b == body && t
                != 1 && t != 2 && t != 0x8001 && t != 0x8002,
            (Ok((h, body)), Err(f)) => {
                ||| (h.block_type == 1 || h.block_type == 2) && NotificationView::spec_parse(body)
                    == Err::<NotificationView, _>(f)
                ||| (h.block_type == 0x8001 || h.block_type == 0x8002) && AlarmAck::spec_parse(body)
                    == Err::<AlarmAck, _>(f)
            },
            _ => false,
        },
{
}

/// A PDU is announced by the type of its body; an error carries its four bytes of status, the
/// acknowledgements nothing.
pub proof fn bodies_are_announced_by_their_type(body: RtaBodyView, p: Priority)
    ensures
        body.pdu_type() == PduType::Data <==> body is Data,
        body.pdu_type() == PduType::Ack <==> body is Ack,
        body.pdu_type() == PduType::Nack <==> body is Nack,
        body.pdu_type() == PduType::Error <==> body is Error,
        body is Ack || body is Nack ==> body.spec_bytes(p).len() == 0,
        body matches RtaBodyView::Error(s) ==> body.spec_bytes(p).len() == 4 && bytes::be32(
            body.spec_bytes(p),
            0,
        ) == s.0,
        RtaBodyView::spec_parse(body.pdu_type(), Seq::empty()) is Ok <==> body is Ack || body is Nack,
{
    if let RtaBodyView::Error(s) = body {
        lemma_at_32(body.spec_bytes(p), 0, s.0);
    }
}

/// Where the parts of an alarm frame stand: the tag of the channel's priority and its FrameID,
/// the header with the length of what follows, and that.
pub proof fn alarm_frames_stand_on_the_wire(
    dst: MacAddr,
    src: MacAddr,
    priority: Priority,
    header: RtaHeader,
    var_part: Seq<u8>,
)
    requires
        var_part.len() <= 0xFFFF,
    ensures
        ({
            let b = frame_around(dst, src, priority, header, var_part);
            &&& b.len() == 32 + var_part.len()
            &&& eth::mac_at(b, 0) == dst
            &&& eth::mac_at(b, 6) == src
            &&& bytes::be16(b, 12) == 0x8100
            &&& bytes::be16(b, 14) == priority.tci()
            &&& bytes::be16(b, 16) == 0x8892
            &&& bytes::be16(b, 18) == priority.frame_id()
            &&& b.subrange(20, 32) == header.spec_bytes(var_part.len() as u16)
            &&& b.skip(32) == var_part
        }),
{
    let b = frame_around(dst, src, priority, header, var_part);
    let e = alarm_eth(dst, src, priority);
    let h = header.spec_bytes(var_part.len() as u16);
    eth::headers_stand_at_their_places(e);
    alarm_headers_stand_at_their_places(header, var_part.len() as u16);
    assert(e.spec_bytes().len() == 18);
    assert forall|i: int| 0 <= i < 18 implies #[trigger] b[i] == e.spec_bytes()[i] by {}
    assert(b.subrange(18, 20) =~= bytes::be16_bytes(priority.frame_id()));
    eth::lemma_at_16(b, 18, priority.frame_id());
    assert(b.subrange(20, 32) =~= h);
    assert(b.skip(32) =~= var_part);
}

/// Which frames are alarm frames: PROFINET frames with the FrameID of a channel.
pub proof fn alarm_frames_are_told_by_their_id(frame: Seq<u8>)
    ensures
        is_alarm(frame) <==> {
            let at = if frame[12] == 0x81 && frame[13] == 0 { 18int } else { 14 };
            &&& frame.len() >= at + 2
            &&& bytes::be16(frame, at - 2) == 0x8892
            &&& bytes::be16(frame, at) == 0xFC01 || bytes::be16(frame, at) == 0xFE01
        },
{
}

/// A PDU is read from its header and the bytes behind it that the header declares.
proof fn lemma_pdu_parts(priority: Priority, b: Seq<u8>, pdu: RtaPduView)
    requires
        spec_parse_pdu(priority, b) == Ok::<_, RtaError>(pdu),
    ensures
        ({
            let len = bytes::be16(b, 10);
            &&& pdu.priority == priority
            &&& 12 + len <= b.len()
            &&& RtaHeader::spec_parse(b) == Ok::<_, RtaError>((pdu.header, len))
            &&& RtaBodyView::spec_parse(pdu.header.pdu_type, b.subrange(12, 12 + len)) == Ok::<
                _,
                RtaError,
            >(pdu.body)
            &&& pdu.header.pdu_type == pdu.body.pdu_type()
        }),
{
}

/// No part of a PDU is refused for its frame.
proof fn lemma_pdu_errors(priority: Priority, b: Seq<u8>)
    ensures
        spec_parse_pdu(priority, b) != Err::<RtaPduView, _>(RtaError::NotAlarm),
        !(spec_parse_pdu(priority, b) matches Err(RtaError::Eth(_))),
{
}

/// How an alarm frame is read, and why a frame is refused as one.
#[verifier::spinoff_prover]
#[verifier::rlimit(60)]
pub proof fn alarm_frames_are_read_by_place(frame: Seq<u8>)
    ensures
        match spec_parse_frame(frame) {
            Err(RtaError::Eth(e)) => EthHeader::spec_parse(frame) == Err::<(EthHeader, usize), _>(e),
            Err(RtaError::NotAlarm) => !is_alarm(frame),
            Ok(pdu) => {
                let at = if frame[12] == 0x81 && frame[13] == 0 { 20int } else { 16 };
                let len = bytes::be16(frame, at + 10);
                &&& is_alarm(frame)
                &&& pdu.priority.frame_id() == bytes::be16(frame, at - 2)
                &&& pdu.header.pdu_type == pdu.body.pdu_type()
                &&& at + 12 + len <= frame.len()
                &&& RtaHeader::spec_parse(frame.skip(at)) == Ok::<_, RtaError>((pdu.header, len))
                &&& RtaBodyView::spec_parse(
                    pdu.header.pdu_type,
                    frame.skip(at).subrange(12, 12 + len),
                ) == Ok::<_, RtaError>(pdu.body)
            },
            Err(_) => true,
        },
        is_alarm(frame) ==> spec_parse_frame(frame) != Err::<RtaPduView, _>(RtaError::NotAlarm),
{
    if let Ok((h, off)) = EthHeader::spec_parse(frame) {
        let b = frame.skip(off + 2);
        if h.ethertype == ETHERTYPE_PROFINET && frame.len() >= off + 2 {
            if let Some(priority) = Priority::of_frame_id(bytes::be16(frame, off as int)) {
                lemma_pdu_errors(priority, b);
                if let Ok(pdu) = spec_parse_pdu(priority, b) {
                    lemma_pdu_parts(priority, b, pdu);
                    assert(bytes::be16(b, 10) == bytes::be16(frame, off + 12));
                }
            }
        }
    }
}

/// The numbers that stand for the first DATA, for none yet, and for the two kinds of diagnosis.
pub proof fn special_numbers_are_apart()
    ensures
        SEQ_INIT == 0xFFFF && SEQ_NONE == 0xFFFE,
        USI_CHANNEL_DIAG == 0x8000 && USI_EXT_CHANNEL_DIAG == 0x8002,
{
}

/// A specifier that nothing was entered in is the number 0.
pub proof fn a_blank_specifier_is_zero(s: AlarmSpecifier)
    requires
        call_ensures(<AlarmSpecifier as Default>::default, (), s),
    ensures
        s.to_u16() == 0,
        s.sequence == 0 && !s.channel_diag && !s.manufacturer_diag,
        !s.submodule_diag && !s.ar_diag,
{
}

} // verus!
