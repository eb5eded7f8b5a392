//! DCP frame ID and acyclic header.

use vstd::prelude::*;

use vstd::slice::slice_subrange;

use crate::bytes;
use crate::dcp::DcpError;
use crate::eth::{self, MacAddr};

verus! {

/// Multicast destination for DCP Identify requests.
pub fn dcp_multicast_mac() -> (m: MacAddr)
    ensures
        m.0@ == seq![0x01u8, 0x0e, 0xcf, 0x00, 0x00, 0x00],
{
    let m = MacAddr([0x01, 0x0e, 0xcf, 0x00, 0x00, 0x00]);
    assert(m.0@ =~= seq![0x01u8, 0x0e, 0xcf, 0x00, 0x00, 0x00]);
    m
}

/// PROFINET RT FrameID values used by DCP.
#[derive(Debug, Clone, Copy, PartialEq, Eq, Structural)]
pub enum FrameId {
    /// `0xfefe`: Identify request (multicast).
    IdentifyRequest,
    /// `0xfeff`: Identify response (unicast).
    IdentifyResponse,
    /// `0xfefd`: Get/Set (request or response).
    GetSet,
    /// `0xfefc`: Hello (device announcing itself, unsolicited).
    Hello,
}

impl FrameId {
    /// Decodes a FrameID; `None` for a value that is not a DCP FrameID.
    #[verifier::allow_in_spec]
    pub fn from_u16(v: u16) -> Option<FrameId>
        returns
            (match v {
                0xfefe => Some(FrameId::IdentifyRequest),
                0xfeff => Some(FrameId::IdentifyResponse),
                0xfefd => Some(FrameId::GetSet),
                0xfefc => Some(FrameId::Hello),
                _ => None::<FrameId>,
            }),
    {
        match v {
            0xfefe => Some(FrameId::IdentifyRequest),
            0xfeff => Some(FrameId::IdentifyResponse),
            0xfefd => Some(FrameId::GetSet),
            0xfefc => Some(FrameId::Hello),
            _ => None,
        }
    }

    /// Encodes back to the wire FrameID value.
    #[verifier::allow_in_spec]
    pub fn to_u16(self) -> u16
        returns
            (match self {
                FrameId::IdentifyRequest => 0xfefeu16,
                FrameId::IdentifyResponse => 0xfeffu16,
                FrameId::GetSet => 0xfefdu16,
                FrameId::Hello => 0xfefcu16,
            }),
    {
        match self {
            FrameId::IdentifyRequest => 0xfefe,
            FrameId::IdentifyResponse => 0xfeff,
            FrameId::GetSet => 0xfefd,
            FrameId::Hello => 0xfefc,
        }
    }
}

/// A FrameID reads back from its number, and no other number reads as it.
pub proof fn frame_id_round_trip(id: FrameId, v: u16)
    ensures
        FrameId::from_u16(id.to_u16()) == Some(id),
        FrameId::from_u16(v) == Some(id) ==> v == id.to_u16(),
{
}

/// DCP header `ServiceID` byte: which operation this frame carries.
#[derive(Debug, Clone, Copy, PartialEq, Eq, Structural)]
pub enum ServiceId {
    /// `3`: Get a record.
    Get,
    /// `4`: Set a record.
    SetRecord,
    /// `5`: Identify (discovery).
    Identify,
    /// `6`: Hello (unsolicited device announcement).
    Hello,
}

impl ServiceId {
    /// Decodes the `ServiceID` byte; unrecognized values are [`DcpError::BadServiceId`].
    #[verifier::allow_in_spec]
    pub fn from_u8(v: u8) -> Result<ServiceId, DcpError>
        returns
            (match v {
                3 => Ok(ServiceId::Get),
                4 => Ok(ServiceId::SetRecord),
                5 => Ok(ServiceId::Identify),
                6 => Ok(ServiceId::Hello),
                other => Err::<ServiceId, _>(DcpError::BadServiceId(other)),
            }),
    {
        match v {
            3 => Ok(ServiceId::Get),
            4 => Ok(ServiceId::SetRecord),
            5 => Ok(ServiceId::Identify),
            6 => Ok(ServiceId::Hello),
            other => Err(DcpError::BadServiceId(other)),
        }
    }

    /// Encodes back to the wire `ServiceID` byte.
    #[verifier::allow_in_spec]
    pub fn to_u8(self) -> u8
        returns
            (match self {
                ServiceId::Get => 3u8,
                ServiceId::SetRecord => 4u8,
                ServiceId::Identify => 5u8,
                ServiceId::Hello => 6u8,
            }),
    {
        match self {
            ServiceId::Get => 3,
            ServiceId::SetRecord => 4,
            ServiceId::Identify => 5,
            ServiceId::Hello => 6,
        }
    }
}

/// DCP header `ServiceType` byte.
#[derive(Debug, Clone, Copy, PartialEq, Eq, Structural)]
pub enum ServiceType {
    /// `0`: this is a request.
    Request,
    /// `1`: this is a successful response.
    ResponseSuccess,
}

impl ServiceType {
    /// Decodes the `ServiceType` byte; unrecognized values are [`DcpError::BadServiceType`].
    #[verifier::allow_in_spec]
    pub fn from_u8(v: u8) -> Result<ServiceType, DcpError>
        returns
            (match v {
                0 => Ok(ServiceType::Request),
                1 => Ok(ServiceType::ResponseSuccess),
                other => Err::<ServiceType, _>(DcpError::BadServiceType(other)),
            }),
    {
        match v {
            0 => Ok(ServiceType::Request),
            1 => Ok(ServiceType::ResponseSuccess),
            other => Err(DcpError::BadServiceType(other)),
        }
    }

    /// Encodes back to the wire `ServiceType` byte.
    #[verifier::allow_in_spec]
    pub fn to_u8(self) -> u8
        returns
            (match self {
                ServiceType::Request => 0u8,
                ServiceType::ResponseSuccess => 1u8,
            }),
    {
        match self {
            ServiceType::Request => 0,
            ServiceType::ResponseSuccess => 1,
        }
    }
}

/// The 10-byte DCP acyclic header that follows the FrameID.
#[derive(Debug, Clone, Copy, PartialEq, Eq, Structural)]
pub struct DcpHeader {
    /// Which operation this frame carries.
    pub service_id: ServiceId,
    /// Request or response.
    pub service_type: ServiceType,
    /// Transaction id, echoed by the response that answers this request.
    pub xid: u32,
    /// On a request: how long the responder should randomize its reply delay over, to avoid
    /// a flood of simultaneous multicast responses. Unused/zero on a response.
    pub response_delay: u16,
    /// Bytes of TLV block data that follow this header (`DCPDataLength`).
    pub data_length: u16,
}

impl DcpHeader {
    /// Length of the header on the wire.
    pub const LEN: usize = 10;

    /// What `buf` starts with: a header and as many block bytes as it declares.
    pub open spec fn spec_parse(buf: Seq<u8>) -> Result<(DcpHeader, Seq<u8>), DcpError> {
        let data_length = bytes::be16(buf, 8);
        if buf.len() < 10 {
            Err(DcpError::TooShort { need: 10, have: buf.len() as usize })
        } else {
            match (ServiceId::from_u8(buf[0]), ServiceType::from_u8(buf[1])) {
                (Err(e), _) => Err(e),
                (_, Err(e)) => Err(e),
                (Ok(service_id), Ok(service_type)) => if buf.len() < 10 + data_length {
                    Err(
                        DcpError::TooShort {
                            need: (10 + data_length) as usize,
                            have: buf.len() as usize,
                        },
                    )
                } else {
                    Ok(
                        (
                            DcpHeader {
                                service_id,
                                service_type,
                                xid: bytes::be32(buf, 2),
                                response_delay: bytes::be16(buf, 6),
                                data_length,
                            },
                            buf.subrange(10, 10 + data_length),
                        ),
                    )
                },
            }
        }
    }

    /// The header's bytes on the wire.
    pub open spec fn spec_bytes(self) -> Seq<u8> {
        seq![self.service_id.to_u8(), self.service_type.to_u8()] + bytes::be32_bytes(self.xid)
            + bytes::be16_bytes(self.response_delay) + bytes::be16_bytes(self.data_length)
    }

    /// Parse the header from bytes positioned just after the FrameID. Returns the header and
    /// the block bytes sliced to `data_length`.
    pub fn parse(buf: &[u8]) -> (res: Result<(DcpHeader, &[u8]), DcpError>)
        ensures
            match res {
                Ok((h, blocks)) => Self::spec_parse(buf@) == Ok::<_, DcpError>((h, blocks@)),
                Err(e) => Self::spec_parse(buf@) == Err::<(DcpHeader, Seq<u8>), _>(e),
            },
    {
        if buf.len() < Self::LEN {
            return Err(DcpError::TooShort { need: Self::LEN, have: buf.len() });
        }
        let service_id = ServiceId::from_u8(buf[0])?;
        let service_type = ServiceType::from_u8(buf[1])?;
        let header = DcpHeader {
            service_id,
            service_type,
            xid: bytes::read_be32(buf, 2),
            response_delay: bytes::read_be16(buf, 6),
            data_length: bytes::read_be16(buf, 8),
        };
        let need: usize = Self::LEN + header.data_length as usize;
        if buf.len() < need {
            return Err(DcpError::TooShort { need, have: buf.len() });
        }
        Ok((header, slice_subrange(buf, Self::LEN, need)))
    }

    /// Serializes the 10-byte header. Inverse of [`DcpHeader::parse`] (the caller appends the
    /// TLV block bytes separately).
    pub fn write(&self, out: &mut Vec<u8>)
        ensures
            final(out)@ == old(out)@ + self.spec_bytes(),
    {
        out.push(self.service_id.to_u8());
        out.push(self.service_type.to_u8());
        bytes::put_be32(out, self.xid);
        bytes::put_be16(out, self.response_delay);
        bytes::put_be16(out, self.data_length);
        assert(out@ =~= old(out)@ + self.spec_bytes());
    }
}

/// A header written in front of as many block bytes as it declares reads back with them,
/// whatever follows.
pub proof fn dcp_header_round_trip(h: DcpHeader, blocks: Seq<u8>, rest: Seq<u8>)
    requires
        blocks.len() == h.data_length,
    ensures
        h.spec_bytes().len() == DcpHeader::LEN,
        DcpHeader::spec_parse(h.spec_bytes() + blocks + rest) == Ok::<_, DcpError>((h, blocks)),
{
    let b = h.spec_bytes() + blocks + rest;
    assert(b[0] == h.service_id.to_u8());
    assert(b[1] == h.service_type.to_u8());
    bytes::lemma_be32_round_trip(h.xid, b.take(2), b.skip(6));
    assert(b.take(2) + bytes::be32_bytes(h.xid) + b.skip(6) =~= b);
    eth::lemma_at_16(b, 6, h.response_delay);
    eth::lemma_at_16(b, 8, h.data_length);
    assert(b.subrange(10, 10 + h.data_length) =~= blocks);
}

/// The numbers of the frames, the services and their types, and the address that Identify
/// requests go to.
pub proof fn services_have_their_numbers(
    id: FrameId,
    s: ServiceId,
    t: ServiceType,
    v: u8,
    m: MacAddr,
)
    ensures
        id.to_u16() == 0xFEFE <==> id == FrameId::IdentifyRequest,
        id.to_u16() == 0xFEFF <==> id == FrameId::IdentifyResponse,
        id.to_u16() == 0xFEFD <==> id == FrameId::GetSet,
        id.to_u16() == 0xFEFC <==> id == FrameId::Hello,
        s.to_u8() == 3 <==> s == ServiceId::Get,
        s.to_u8() == 4 <==> s == ServiceId::SetRecord,
        s.to_u8() == 5 <==> s == ServiceId::Identify,
        s.to_u8() == 6 <==> s == ServiceId::Hello,
        ServiceId::from_u8(v) matches Ok(x) ==> x.to_u8() == v,
        ServiceId::from_u8(v) is Ok <==> 3 <= v <= 6,
        ServiceId::from_u8(v) matches Err(e) ==> e == DcpError::BadServiceId(v),
        t.to_u8() == 0 <==> t == ServiceType::Request,
        t.to_u8() == 1 <==> t == ServiceType::ResponseSuccess,
        ServiceType::from_u8(v) matches Ok(x) ==> x.to_u8() == v,
        ServiceType::from_u8(v) is Ok <==> v <= 1,
        ServiceType::from_u8(v) matches Err(e) ==> e == DcpError::BadServiceType(v),
        call_ensures(dcp_multicast_mac, (), m) ==> m.0@ =~= seq![1u8, 14, 207, 0, 0, 0],
{
}

/// Where the fields of a header stand.
pub proof fn dcp_headers_stand_at_their_places(h: DcpHeader)
    ensures
        ({
            let b = h.spec_bytes();
            &&& b.len() == 10
            &&& b[0] == h.service_id.to_u8() && b[1] == h.service_type.to_u8()
            &&& bytes::be32(b, 2) == h.xid
            &&& bytes::be16(b, 6) == h.response_delay
            &&& bytes::be16(b, 8) == h.data_length
        }),
{
    let b = h.spec_bytes();
    bytes::lemma_be32_round_trip(h.xid, b.take(2), b.skip(6));
    assert(b.take(2) + bytes::be32_bytes(h.xid) + b.skip(6) =~= b);
    eth::lemma_at_16(b, 6, h.response_delay);
    eth::lemma_at_16(b, 8, h.data_length);
}

/// How a header is read, with the blocks behind it, and why bytes are refused as one.
pub proof fn dcp_headers_are_read_by_place(buf: Seq<u8>)
    requires
        buf.len() <= usize::MAX,
    ensures
        ({
            let len = bytes::be16(buf, 8);
            match DcpHeader::spec_parse(buf) {
                Ok((h, blocks)) => {
                    &&& buf.len() >= 10 + len
                    &&& h.service_id.to_u8() == buf[0] && h.service_type.to_u8() == buf[1]
                    &&& h.xid == bytes::be32(buf, 2) && h.response_delay == bytes::be16(buf, 6)
                    &&& h.data_length == len && blocks == buf.subrange(10, 10 + len)
                },
                Err(DcpError::TooShort { need, have }) => {
                    &&& have == buf.len() && have < need
                    &&& need == 10 || need == 10 + len && buf.len() >= 10
                },
                Err(DcpError::BadServiceId(v)) => buf.len() >= 10 && v == buf[0] && !(3 <= v <= 6),
                Err(DcpError::BadServiceType(v)) => buf.len() >= 10 && v == buf[1] && v > 1,
                Err(_) => false,
            }
        }),
{
}

} // verus!
