//! DCE-RPC v4 connectionless codec used by PROFINET IO (UDP port 34964).

use vstd::prelude::*;

use crate::bytes;

pub mod header;
pub mod ndr;
pub mod transport;
pub mod uuid;

pub use header::{
    Opnum, PacketType, RpcHeader, FLAG1_FRAG, FLAG1_IDEMPOTENT, FLAG1_LAST_FRAG, FLAG1_NO_FACK,
};
pub use ndr::{NdrRequest, NdrResponse};
pub use transport::MockRpcTransport;
pub use uuid::{pnio_controller_interface, pnio_device_interface, Uuid};

verus! {

/// UDP port of the PNIO context manager (device side listens here; controllers too).
pub const PNIO_UDP_PORT: u16 = 34964;

/// A UDP address.
#[derive(Debug, Clone, Copy, PartialEq, Eq, Structural)]
pub enum Endpoint {
    /// IPv4 address, as a big-endian number, and port.
    V4 { ip: u32, port: u16 },
    /// IPv6 address, as a big-endian number, port, flow information and scope.
    V6 { ip: u128, port: u16, flowinfo: u32, scope_id: u32 },
}

impl Endpoint {
    /// The same host at another port.
    #[verifier::allow_in_spec]
    pub fn at_port(self, port: u16) -> Endpoint
        returns
            (match self {
                Endpoint::V4 { ip, .. } => Endpoint::V4 { ip, port },
                Endpoint::V6 { ip, .. } => Endpoint::V6 { ip, port, flowinfo: 0u32, scope_id: 0u32 },
            }),
    {
        match self {
            Endpoint::V4 { ip, .. } => Endpoint::V4 { ip, port },
            Endpoint::V6 { ip, .. } => Endpoint::V6 { ip, port, flowinfo: 0, scope_id: 0 },
        }
    }
}

/// Errors from the RPC envelope.
#[derive(Debug, Clone, PartialEq, Eq)]
pub enum RpcError {
    /// Fewer bytes than the structure needs.
    TooShort { need: usize, have: usize },
    /// Not DCE-RPC version 4.
    BadVersion(u8),
    /// A packet type outside the connectionless protocol.
    UnsupportedPtype(u8),
    /// A fragmented PDU.
    Fragmented { frag_num: u16, flags1: u8 },
    /// A request for an interface that is not ours.
    BadInterface(Uuid),
    /// The NDR counters contradict each other or the buffer.
    NdrMismatch(&'static str),
    /// The socket failed; the text says how.
    Io(String),
}

/// NDR data representation: only the byte order matters for PNIO (char = ASCII,
/// float = IEEE).
#[derive(Debug, Clone, Copy, PartialEq, Eq, Structural)]
pub struct Drep {
    pub little_endian: bool,
}

impl Drep {
    /// Big-endian integers.
    #[verifier::allow_in_spec]
    pub fn big() -> Drep
        returns
            (Drep { little_endian: false }),
    {
        Drep { little_endian: false }
    }

    /// Little-endian integers.
    #[verifier::allow_in_spec]
    pub fn little() -> Drep
        returns
            (Drep { little_endian: true }),
    {
        Drep { little_endian: true }
    }

    /// The 16-bit value at offset `i` of `b` in this byte order.
    pub open spec fn at16(self, b: Seq<u8>, i: int) -> u16 {
        if self.little_endian {
            bytes::le16(b, i)
        } else {
            bytes::be16(b, i)
        }
    }

    /// The 32-bit value at offset `i` of `b` in this byte order.
    pub open spec fn at32(self, b: Seq<u8>, i: int) -> u32 {
        if self.little_endian {
            bytes::le32(b, i)
        } else {
            bytes::be32(b, i)
        }
    }

    /// The bytes of `v` in this byte order.
    pub open spec fn bytes16(self, v: u16) -> Seq<u8> {
        if self.little_endian {
            bytes::le16_bytes(v)
        } else {
            bytes::be16_bytes(v)
        }
    }

    /// The bytes of `v` in this byte order.
    pub open spec fn bytes32(self, v: u32) -> Seq<u8> {
        if self.little_endian {
            bytes::le32_bytes(v)
        } else {
            bytes::be32_bytes(v)
        }
    }

    /// Decode the first byte of the header's data representation field: bit 4 says
    /// little-endian.
    pub fn from_byte(b: u8) -> (d: Drep)
        ensures
            d.little_endian == (b / 0x10 % 2 == 1),
    {
        assert((b & 0x10 != 0) == (b / 0x10 % 2 == 1)) by (bit_vector);
        Drep { little_endian: b & 0x10 != 0 }
    }

    /// The three data representation bytes of the header.
    pub fn to_bytes(self) -> (r: [u8; 3])
        ensures
            r@ == seq![if self.little_endian { 0x10u8 } else { 0u8 }, 0u8, 0u8],
    {
        let r: [u8; 3] = [if self.little_endian { 0x10 } else { 0x00 }, 0, 0];
        assert(r@ =~= seq![if self.little_endian { 0x10u8 } else { 0u8 }, 0u8, 0u8]);
        r
    }

    /// The 16-bit value `b` starts with.
    pub fn u16(self, b: &[u8]) -> (v: u16)
        requires
            b@.len() >= 2,
        ensures
            v == self.at16(b@, 0),
    {
        if self.little_endian {
            bytes::read_le16(b, 0)
        } else {
            bytes::read_be16(b, 0)
        }
    }

    /// The 32-bit value `b` starts with.
    pub fn u32(self, b: &[u8]) -> (v: u32)
        requires
            b@.len() >= 4,
        ensures
            v == self.at32(b@, 0),
    {
        if self.little_endian {
            bytes::read_le32(b, 0)
        } else {
            bytes::read_be32(b, 0)
        }
    }

    /// The 16-bit value at offset `i`.
    pub fn read16(self, b: &[u8], i: usize) -> (v: u16)
        requires
            i + 2 <= b@.len(),
        ensures
            v == self.at16(b@, i as int),
    {
        if self.little_endian {
            bytes::read_le16(b, i)
        } else {
            bytes::read_be16(b, i)
        }
    }

    /// The 32-bit value at offset `i`.
    pub fn read32(self, b: &[u8], i: usize) -> (v: u32)
        requires
            i + 4 <= b@.len(),
        ensures
            v == self.at32(b@, i as int),
    {
        if self.little_endian {
            bytes::read_le32(b, i)
        } else {
            bytes::read_be32(b, i)
        }
    }

    /// Append `v` in this byte order.
    pub fn put_u16(self, out: &mut Vec<u8>, v: u16)
        ensures
            final(out)@ == old(out)@ + self.bytes16(v),
    {
        if self.little_endian {
            bytes::put_le16(out, v);
        } else {
            bytes::put_be16(out, v);
        }
    }

    /// Append `v` in this byte order.
    pub fn put_u32(self, out: &mut Vec<u8>, v: u32)
        ensures
            final(out)@ == old(out)@ + self.bytes32(v),
    {
        if self.little_endian {
            bytes::put_le32(out, v);
        } else {
            bytes::put_be32(out, v);
        }
    }
}

/// A 16-bit value written in a byte order reads back in that order.
pub proof fn drep_round_trip_16(d: Drep, v: u16, b: Seq<u8>, i: int)
    requires
        0 <= i,
        i + 2 <= b.len(),
        b.subrange(i, i + 2) =~= d.bytes16(v),
    ensures
        d.at16(b, i) == v,
{
    let s = b.subrange(i, i + 2);
    assert(b[i] == s[0] && b[i + 1] == s[1]);
}

/// A 32-bit value written in a byte order reads back in that order.
pub proof fn drep_round_trip_32(d: Drep, v: u32, b: Seq<u8>, i: int)
    requires
        0 <= i,
        i + 4 <= b.len(),
        b.subrange(i, i + 4) =~= d.bytes32(v),
    ensures
        d.at32(b, i) == v,
{
    let s = b.subrange(i, i + 4);
    assert(b[i] == s[0] && b[i + 1] == s[1] && b[i + 2] == s[2] && b[i + 3] == s[3]);
}

/// In one byte order the first byte weighs most, in the other the last.
pub proof fn byte_orders_weigh_the_bytes(b: Seq<u8>, i: int)
    ensures
        Drep::big().at16(b, i) == b[i] * 256 + b[i + 1],
        Drep::little().at16(b, i) == b[i] + b[i + 1] * 256,
        Drep::big().at32(b, i) == b[i] * 16_777_216 + b[i + 1] * 65_536 + b[i + 2] * 256 + b[i + 3],
        Drep::little().at32(b, i) == b[i] + b[i + 1] * 256 + b[i + 2] * 65_536 + b[i + 3]
            * 16_777_216,
{
}

/// The byte order is the fifth bit of the first byte that declares it; the other two say
/// nothing.
pub proof fn byte_orders_are_declared_by_one_bit(b: u8, d: Drep, r: [u8; 3])
    ensures
        call_ensures(Drep::from_byte, (b,), d) ==> (d.little_endian <==> b % 32 >= 16),
        call_ensures(Drep::to_bytes, (d,), r) ==> {
            &&& r@[0] == 16 <==> d.little_endian
            &&& r@[0] == 0 <==> !d.little_endian
            &&& r@[1] == 0 && r@[2] == 0
        },
{
}

/// Calls go to the host that was heard from, at the port of PNIO.
pub proof fn hosts_keep_their_address(e: Endpoint, port: u16)
    ensures
        PNIO_UDP_PORT == 0x8894,
        e matches Endpoint::V4 { ip, .. } ==> e.at_port(port) == (Endpoint::V4 { ip, port }),
        e matches Endpoint::V6 { ip, .. } ==> (e.at_port(port) matches Endpoint::V6 {
            ip: i,
            port: p,
            ..
        } && i == ip && p == port),
{
}

} // verus!
