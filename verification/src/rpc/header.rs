//! The 80-byte DCE-RPC connectionless PDU header.

use vstd::prelude::*;

use crate::bytes;
use crate::rpc::{Drep, RpcError, Uuid};

verus! {

/// `flags1`: the last fragment of a fragmented PDU.
pub const FLAG1_LAST_FRAG: u8 = 0x02;

/// `flags1`: the PDU is a fragment.
pub const FLAG1_FRAG: u8 = 0x04;

/// `flags1`: no fragment acknowledgement is wanted.
pub const FLAG1_NO_FACK: u8 = 0x08;

/// `flags1`: the operation may be repeated.
pub const FLAG1_IDEMPOTENT: u8 = 0x20;

/// The packet types of the connectionless protocol.
#[derive(Debug, Clone, Copy, PartialEq, Eq, Structural)]
pub enum PacketType {
    Request,
    Ping,
    Response,
    Fault,
    Working,
    NoCall,
    Reject,
    Ack,
    ClCancel,
    Fack,
    CancelAck,
}

impl PacketType {
    /// The packet type a byte stands for.
    pub open spec fn spec_from_u8(v: u8) -> Option<PacketType> {
        match v {
            0 => Some(PacketType::Request),
            1 => Some(PacketType::Ping),
            2 => Some(PacketType::Response),
            3 => Some(PacketType::Fault),
            4 => Some(PacketType::Working),
            5 => Some(PacketType::NoCall),
            6 => Some(PacketType::Reject),
            7 => Some(PacketType::Ack),
            8 => Some(PacketType::ClCancel),
            9 => Some(PacketType::Fack),
            10 => Some(PacketType::CancelAck),
            _ => None,
        }
    }

    /// Decode the packet type byte; `None` outside the connectionless protocol.
    pub fn from_u8(v: u8) -> (r: Option<PacketType>)
        ensures
            r == Self::spec_from_u8(v),
    {
        match v {
            0 => Some(PacketType::Request),
            1 => Some(PacketType::Ping),
            2 => Some(PacketType::Response),
            3 => Some(PacketType::Fault),
            4 => Some(PacketType::Working),
            5 => Some(PacketType::NoCall),
            6 => Some(PacketType::Reject),
            7 => Some(PacketType::Ack),
            8 => Some(PacketType::ClCancel),
            9 => Some(PacketType::Fack),
            10 => Some(PacketType::CancelAck),
            _ => None,
        }
    }

    /// Encode back to the packet type byte: the one that decodes to `self`.
    pub fn to_u8(self) -> (v: u8)
        ensures
            Self::spec_from_u8(v) == Some(self),
            v == self.spec_to_u8(),
    {
        match self {
            PacketType::Request => 0,
            PacketType::Ping => 1,
            PacketType::Response => 2,
            PacketType::Fault => 3,
            PacketType::Working => 4,
            PacketType::NoCall => 5,
            PacketType::Reject => 6,
            PacketType::Ack => 7,
            PacketType::ClCancel => 8,
            PacketType::Fack => 9,
            PacketType::CancelAck => 10,
        }
    }

    /// The packet type byte.
    pub open spec fn spec_to_u8(self) -> u8 {
        match self {
            PacketType::Request => 0,
            PacketType::Ping => 1,
            PacketType::Response => 2,
            PacketType::Fault => 3,
            PacketType::Working => 4,
            PacketType::NoCall => 5,
            PacketType::Reject => 6,
            PacketType::Ack => 7,
            PacketType::ClCancel => 8,
            PacketType::Fack => 9,
            PacketType::CancelAck => 10,
        }
    }
}

/// The PNIO operations.
#[derive(Debug, Clone, Copy, PartialEq, Eq, Structural)]
pub enum Opnum {
    Connect,
    Release,
    Read,
    Write,
    Control,
    ReadImplicit,
}

impl Opnum {
    /// The operation a number stands for.
    pub open spec fn spec_from_u16(v: u16) -> Option<Opnum> {
        match v {
            0 => Some(Opnum::Connect),
            1 => Some(Opnum::Release),
            2 => Some(Opnum::Read),
            3 => Some(Opnum::Write),
            4 => Some(Opnum::Control),
            5 => Some(Opnum::ReadImplicit),
            _ => None,
        }
    }

    /// Decode the operation number; `None` for one PNIO does not define.
    pub fn from_u16(v: u16) -> (r: Option<Opnum>)
        ensures
            r == Self::spec_from_u16(v),
    {
        match v {
            0 => Some(Opnum::Connect),
            1 => Some(Opnum::Release),
            2 => Some(Opnum::Read),
            3 => Some(Opnum::Write),
            4 => Some(Opnum::Control),
            5 => Some(Opnum::ReadImplicit),
            _ => None,
        }
    }

    /// Encode back to the operation number: the one that decodes to `self`.
    pub fn to_u16(self) -> (v: u16)
        ensures
            Self::spec_from_u16(v) == Some(self),
    {
        match self {
            Opnum::Connect => 0,
            Opnum::Release => 1,
            Opnum::Read => 2,
            Opnum::Write => 3,
            Opnum::Control => 4,
            Opnum::ReadImplicit => 5,
        }
    }
}

/// The PDU header.
#[derive(Debug, Clone, Copy, PartialEq, Eq, Structural)]
pub struct RpcHeader {
    pub ptype: PacketType,
    pub flags1: u8,
    pub flags2: u8,
    pub drep: Drep,
    pub serial_hi: u8,
    pub object: Uuid,
    pub interface: Uuid,
    pub activity: Uuid,
    pub server_boot: u32,
    pub if_version: u32,
    pub seq_num: u32,
    pub opnum: u16,
    pub ihint: u16,
    pub ahint: u16,
    pub frag_len: u16,
    pub frag_num: u16,
    pub auth_proto: u8,
    pub serial_lo: u8,
}

/// Whether `flags1` marks the PDU as a fragment.
pub open spec fn is_fragment(flags1: u8) -> bool {
    flags1 / FLAG1_FRAG % 2 == 1
}

impl RpcHeader {
    /// Length of the header on the wire.
    pub const LEN: usize = 80;

    /// The byte order that a header declares.
    pub open spec fn spec_drep(buf: Seq<u8>) -> Drep {
        Drep { little_endian: buf[4] / 0x10 % 2 == 1 }
    }

    /// What `buf` reads as: version 4, a known packet type, one unfragmented PDU.
    pub open spec fn spec_parse(buf: Seq<u8>) -> Result<RpcHeader, RpcError> {
        let drep = Self::spec_drep(buf);
        if buf.len() < Self::LEN {
            Err(RpcError::TooShort { need: Self::LEN, have: buf.len() as usize })
        } else if buf[0] != 4 {
            Err(RpcError::BadVersion(buf[0]))
        } else if PacketType::spec_from_u8(buf[1]) is None {
            Err(RpcError::UnsupportedPtype(buf[1]))
        } else if drep.at16(buf, 76) != 0 || is_fragment(buf[2]) {
            Err(RpcError::Fragmented { frag_num: drep.at16(buf, 76), flags1: buf[2] })
        } else {
            Ok(
                RpcHeader {
                    ptype: PacketType::spec_from_u8(buf[1])->0,
                    flags1: buf[2],
                    flags2: buf[3],
                    drep,
                    serial_hi: buf[7],
                    object: Uuid::at(buf, 8, drep),
                    interface: Uuid::at(buf, 24, drep),
                    activity: Uuid::at(buf, 40, drep),
                    server_boot: drep.at32(buf, 56),
                    if_version: drep.at32(buf, 60),
                    seq_num: drep.at32(buf, 64),
                    opnum: drep.at16(buf, 68),
                    ihint: drep.at16(buf, 70),
                    ahint: drep.at16(buf, 72),
                    frag_len: drep.at16(buf, 74),
                    frag_num: drep.at16(buf, 76),
                    auth_proto: buf[78],
                    serial_lo: buf[79],
                },
            )
        }
    }

    /// The first 56 bytes: version, type, flags, byte order and the three UUIDs.
    pub open spec fn head_bytes(self) -> Seq<u8> {
        let d = self.drep;
        let order: u8 = if d.little_endian {
            0x10
        } else {
            0
        };
        seq![
            4u8,
            self.ptype.spec_to_u8(),
            self.flags1,
            self.flags2,
            order,
            0u8,
            0u8,
            self.serial_hi,
        ] + self.object.spec_bytes(d) + self.interface.spec_bytes(d) + self.activity.spec_bytes(d)
    }

    /// The last 24 bytes: versions, sequence number, operation and fragment fields.
    pub open spec fn tail_bytes(self) -> Seq<u8> {
        let d = self.drep;
        d.bytes32(self.server_boot) + d.bytes32(self.if_version) + d.bytes32(self.seq_num)
            + d.bytes16(self.opnum) + d.bytes16(self.ihint) + d.bytes16(self.ahint) + d.bytes16(
            self.frag_len,
        ) + d.bytes16(self.frag_num) + seq![self.auth_proto, self.serial_lo]
    }

    /// The header's bytes on the wire.
    pub open spec fn spec_bytes(self) -> Seq<u8> {
        self.head_bytes() + self.tail_bytes()
    }

    /// Read the header that `buf` starts with.
    pub fn parse(buf: &[u8]) -> (res: Result<RpcHeader, RpcError>)
        ensures
            res == Self::spec_parse(buf@),
    {
        let have: usize = buf.len();
        if have < Self::LEN {
            return Err(RpcError::TooShort { need: Self::LEN, have });
        }
        if buf[0] != 4 {
            return Err(RpcError::BadVersion(buf[0]));
        }
        let ptype = match PacketType::from_u8(buf[1]) {
            Some(p) => p,
            None => {
                return Err(RpcError::UnsupportedPtype(buf[1]));
            },
        };
        let flags1: u8 = buf[2];
        let drep = Drep::from_byte(buf[4]);
        let frag_num: u16 = drep.read16(buf, 76);
        assert((flags1 & FLAG1_FRAG != 0) == is_fragment(flags1)) by (bit_vector);
        if frag_num != 0 || flags1 & FLAG1_FRAG != 0 {
            return Err(RpcError::Fragmented { frag_num, flags1 });
        }
        Ok(
            RpcHeader {
                ptype,
                flags1,
                flags2: buf[3],
                drep,
                serial_hi: buf[7],
                object: Uuid::read_at(buf, 8, drep),
                interface: Uuid::read_at(buf, 24, drep),
                activity: Uuid::read_at(buf, 40, drep),
                server_boot: drep.read32(buf, 56),
                if_version: drep.read32(buf, 60),
                seq_num: drep.read32(buf, 64),
                opnum: drep.read16(buf, 68),
                ihint: drep.read16(buf, 70),
                ahint: drep.read16(buf, 72),
                frag_len: drep.read16(buf, 74),
                frag_num,
                auth_proto: buf[78],
                serial_lo: buf[79],
            },
        )
    }

    /// Append the header's bytes in its own byte order.
    pub fn write(&self, out: &mut Vec<u8>)
        ensures
            final(out)@ == old(out)@ + self.spec_bytes(),
    {
        self.write_head(out);
        self.write_tail(out);
        assert(out@ =~= old(out)@ + self.spec_bytes());
    }

    fn write_head(&self, out: &mut Vec<u8>)
        ensures
            final(out)@ == old(out)@ + self.head_bytes(),
    {
        broadcast use bytes::lemma_add_assoc;

        let d = self.drep;
        let order: u8 = if d.little_endian {
            0x10
        } else {
            0
        };
        let ghost first = seq![
            4u8,
            self.ptype.spec_to_u8(),
            self.flags1,
            self.flags2,
            order,
            0u8,
            0u8,
            self.serial_hi,
        ];
        out.push(4);
        out.push(self.ptype.to_u8());
        out.push(self.flags1);
        out.push(self.flags2);
        out.push(order);
        out.push(0);
        out.push(0);
        out.push(self.serial_hi);
        assert(out@ =~= old(out)@ + first);
        self.object.write(out, d);
        self.interface.write(out, d);
        self.activity.write(out, d);
    }

    fn write_tail(&self, out: &mut Vec<u8>)
        ensures
            final(out)@ == old(out)@ + self.tail_bytes(),
    {
        broadcast use bytes::lemma_add_assoc;

        let d = self.drep;
        d.put_u32(out, self.server_boot);
        d.put_u32(out, self.if_version);
        d.put_u32(out, self.seq_num);
        d.put_u16(out, self.opnum);
        d.put_u16(out, self.ihint);
        d.put_u16(out, self.ahint);
        d.put_u16(out, self.frag_len);
        d.put_u16(out, self.frag_num);
        let ghost before = out@;
        out.push(self.auth_proto);
        out.push(self.serial_lo);
        assert(out@ =~= before + seq![self.auth_proto, self.serial_lo]);
    }
}

/// Reading a written header gives it back, for every unfragmented PDU and whatever follows.
pub proof fn rpc_header_round_trip(h: RpcHeader, body: Seq<u8>)
    requires
        h.frag_num == 0,
        !is_fragment(h.flags1),
    ensures
        h.spec_bytes().len() == RpcHeader::LEN,
        RpcHeader::spec_parse(h.spec_bytes() + body) == Ok::<RpcHeader, RpcError>(h),
{
    let b = h.spec_bytes() + body;
    lemma_head_bytes(h, h.tail_bytes() + body);
    lemma_tail_bytes(h, h.head_bytes(), body);
    assert(h.head_bytes() + (h.tail_bytes() + body) =~= b);
    assert(h.head_bytes() + h.tail_bytes() + body =~= b);
}

#[verifier::spinoff_prover]
#[verifier::rlimit(40)]
proof fn lemma_head_bytes(h: RpcHeader, after: Seq<u8>)
    ensures
        h.head_bytes().len() == 56,
        ({
            let b = h.head_bytes() + after;
            &&& b[0] == 4
            &&& b[1] == h.ptype.spec_to_u8()
            &&& b[2] == h.flags1
            &&& b[3] == h.flags2
            &&& b[4] == (if h.drep.little_endian {
                0x10u8
            } else {
                0u8
            })
            &&& b[7] == h.serial_hi
            &&& Uuid::at(b, 8, h.drep) == h.object
            &&& Uuid::at(b, 24, h.drep) == h.interface
            &&& Uuid::at(b, 40, h.drep) == h.activity
        }),
{
    let d = h.drep;
    let b = h.head_bytes() + after;
    let (u1, u2, u3) = (h.object.spec_bytes(d), h.interface.spec_bytes(d), h.activity.spec_bytes(d));
    crate::rpc::uuid::uuid_round_trip(h.object, d, b.take(8), u2 + u3 + after);
    crate::rpc::uuid::uuid_round_trip(h.interface, d, b.take(24), u3 + after);
    crate::rpc::uuid::uuid_round_trip(h.activity, d, b.take(40), after);
    assert(b.take(8) + u1 + (u2 + u3 + after) =~= b);
    assert(b.take(24) + u2 + (u3 + after) =~= b);
    assert(b.take(40) + u3 + after =~= b);
}

proof fn lemma_tail_bytes(h: RpcHeader, before: Seq<u8>, after: Seq<u8>)
    requires
        before.len() == 56,
    ensures
        h.tail_bytes().len() == 24,
        ({
            let b = before + h.tail_bytes() + after;
            let d = h.drep;
            &&& d.at32(b, 56) == h.server_boot
            &&& d.at32(b, 60) == h.if_version
            &&& d.at32(b, 64) == h.seq_num
            &&& d.at16(b, 68) == h.opnum
            &&& d.at16(b, 70) == h.ihint
            &&& d.at16(b, 72) == h.ahint
            &&& d.at16(b, 74) == h.frag_len
            &&& d.at16(b, 76) == h.frag_num
            &&& b[78] == h.auth_proto
            &&& b[79] == h.serial_lo
        }),
{
    let d = h.drep;
    let t = h.tail_bytes();
    let b = before + t + after;
    assert(t.subrange(0, 4) =~= d.bytes32(h.server_boot));
    assert(t.subrange(4, 8) =~= d.bytes32(h.if_version));
    assert(t.subrange(8, 12) =~= d.bytes32(h.seq_num));
    assert(t.subrange(12, 14) =~= d.bytes16(h.opnum));
    assert(t.subrange(14, 16) =~= d.bytes16(h.ihint));
    assert(t.subrange(16, 18) =~= d.bytes16(h.ahint));
    assert(t.subrange(18, 20) =~= d.bytes16(h.frag_len));
    assert(t.subrange(20, 22) =~= d.bytes16(h.frag_num));
    assert(b.subrange(56, 60) =~= t.subrange(0, 4));
    assert(b.subrange(60, 64) =~= t.subrange(4, 8));
    assert(b.subrange(64, 68) =~= t.subrange(8, 12));
    assert(b.subrange(68, 70) =~= t.subrange(12, 14));
    assert(b.subrange(70, 72) =~= t.subrange(14, 16));
    assert(b.subrange(72, 74) =~= t.subrange(16, 18));
    assert(b.subrange(74, 76) =~= t.subrange(18, 20));
    assert(b.subrange(76, 78) =~= t.subrange(20, 22));
    crate::rpc::drep_round_trip_32(d, h.server_boot, b, 56);
    crate::rpc::drep_round_trip_32(d, h.if_version, b, 60);
    crate::rpc::drep_round_trip_32(d, h.seq_num, b, 64);
    crate::rpc::drep_round_trip_16(d, h.opnum, b, 68);
    crate::rpc::drep_round_trip_16(d, h.ihint, b, 70);
    crate::rpc::drep_round_trip_16(d, h.ahint, b, 72);
    crate::rpc::drep_round_trip_16(d, h.frag_len, b, 74);
    crate::rpc::drep_round_trip_16(d, h.frag_num, b, 76);
}

/// The numbers of the packet types.
pub proof fn packet_types_have_their_numbers(t: PacketType, v: u8)
    ensures
        t.spec_to_u8() == 0 <==> t == PacketType::Request,
        t.spec_to_u8() == 1 <==> t == PacketType::Ping,
        t.spec_to_u8() == 2 <==> t == PacketType::Response,
        t.spec_to_u8() == 3 <==> t == PacketType::Fault,
        t.spec_to_u8() == 4 <==> t == PacketType::Working,
        t.spec_to_u8() == 5 <==> t == PacketType::NoCall,
        t.spec_to_u8() == 6 <==> t == PacketType::Reject,
        t.spec_to_u8() == 7 <==> t == PacketType::Ack,
        t.spec_to_u8() == 8 <==> t == PacketType::ClCancel,
        t.spec_to_u8() == 9 <==> t == PacketType::Fack,
        t.spec_to_u8() == 10 <==> t == PacketType::CancelAck,
        PacketType::spec_from_u8(v) == Some(t) <==> v == t.spec_to_u8(),
        PacketType::spec_from_u8(v) is None <==> v > 10,
{
}

/// The numbers of the operations.
pub proof fn operations_have_their_numbers(v: u16)
    ensures
        Opnum::spec_from_u16(v) == Some(Opnum::Connect) <==> v == 0,
        Opnum::spec_from_u16(v) == Some(Opnum::Release) <==> v == 1,
        Opnum::spec_from_u16(v) == Some(Opnum::Read) <==> v == 2,
        Opnum::spec_from_u16(v) == Some(Opnum::Write) <==> v == 3,
        Opnum::spec_from_u16(v) == Some(Opnum::Control) <==> v == 4,
        Opnum::spec_from_u16(v) == Some(Opnum::ReadImplicit) <==> v == 5,
        Opnum::spec_from_u16(v) is None <==> v > 5,
{
}

/// The flags are single bits: of 2 the last fragment, of 4 any fragment, of 8 one that needs no
/// acknowledgement, of 32 a call that may be repeated.
pub proof fn flags_are_single_bits(flags1: u8)
    ensures
        FLAG1_LAST_FRAG == 2 && FLAG1_FRAG == 4 && FLAG1_NO_FACK == 8 && FLAG1_IDEMPOTENT == 32,
        is_fragment(flags1) <==> flags1 % 8 >= 4,
{
}

/// Where the fields of a header stand.
pub proof fn headers_stand_on_the_wire(h: RpcHeader)
    ensures
        ({
            let b = h.spec_bytes();
            let d = h.drep;
            &&& b.len() == 80
            &&& b[0] == 4 && b[1] == h.ptype.spec_to_u8() && b[2] == h.flags1 && b[3] == h.flags2
            &&& b[4] == (if d.little_endian { 16u8 } else { 0u8 }) && b[5] == 0 && b[6] == 0
            &&& b[7] == h.serial_hi
            &&& Uuid::at(b, 8, d) == h.object
            &&& Uuid::at(b, 24, d) == h.interface
            &&& Uuid::at(b, 40, d) == h.activity
            &&& d.at32(b, 56) == h.server_boot
            &&& d.at32(b, 60) == h.if_version
            &&& d.at32(b, 64) == h.seq_num
            &&& d.at16(b, 68) == h.opnum
            &&& d.at16(b, 70) == h.ihint
            &&& d.at16(b, 72) == h.ahint
            &&& d.at16(b, 74) == h.frag_len
            &&& d.at16(b, 76) == h.frag_num
            &&& b[78] == h.auth_proto && b[79] == h.serial_lo
        }),
{
    let b = h.spec_bytes();
    let none = Seq::<u8>::empty();
    lemma_head_bytes(h, h.tail_bytes());
    lemma_tail_bytes(h, h.head_bytes(), none);
    assert(h.head_bytes() + h.tail_bytes() + none =~= b);
}

/// How a header is read, in the byte order that it declares, and why bytes are refused as one.
pub proof fn headers_are_read_by_place(buf: Seq<u8>)
    requires
        buf.len() <= usize::MAX,
    ensures
        ({
            let d = Drep { little_endian: buf[4] / 16 % 2 == 1 };
            let broken = d.at16(buf, 76) != 0 || buf[2] % 8 >= 4;
            match RpcHeader::spec_parse(buf) {
                Ok(h) => {
                    &&& buf.len() >= 80 && buf[0] == 4 && buf[1] <= 10 && !broken
                    &&& h.drep == d && h.ptype.spec_to_u8() == buf[1]
                    &&& h.flags1 == buf[2] && h.flags2 == buf[3] && h.serial_hi == buf[7]
                    &&& h.object == Uuid::at(buf, 8, d)
                    &&& h.interface == Uuid::at(buf, 24, d)
                    &&& h.activity == Uuid::at(buf, 40, d)
                    &&& h.server_boot == d.at32(buf, 56) && h.if_version == d.at32(buf, 60)
                    &&& h.seq_num == d.at32(buf, 64) && h.opnum == d.at16(buf, 68)
                    &&& h.ihint == d.at16(buf, 70) && h.ahint == d.at16(buf, 72)
                    &&& h.frag_len == d.at16(buf, 74) && h.frag_num == 0
                    &&& h.auth_proto == buf[78] && h.serial_lo == buf[79]
                },
                Err(RpcError::TooShort { need, have }) => need == 80 && have == buf.len() && have
                    < 80,
                Err(RpcError::BadVersion(v)) => buf.len() >= 80 && v == buf[0] && v != 4,
                Err(RpcError::UnsupportedPtype(v)) => buf.len() >= 80 && buf[0] == 4 && v == buf[1]
                    && v > 10,
                Err(RpcError::Fragmented { frag_num, flags1 }) => {
                    &&& buf.len() >= 80 && buf[0] == 4 && buf[1] <= 10 && broken
                    &&& frag_num == d.at16(buf, 76) && flags1 == buf[2]
                },
                Err(_) => false,
            }
        }),
{
}

} // verus!
