//! DCP, the discovery and configuration protocol: the frame codec, the blocks it carries, the
//! answer to a Set request, and what an Identify request asks. Answering an Identify request is
//! left to the caller.

use vstd::prelude::*;

use vstd::slice::{slice_subrange, slice_to_vec};

use crate::bytes;
use crate::eth::{EthError, EthHeader, MacAddr, ETHERTYPE_PROFINET};

pub mod block;
pub mod frame;
pub mod set;

pub use block::{blocks_encoded_len, parse_blocks, write_blocks, DcpBlock};
pub use frame::{dcp_multicast_mac, DcpHeader, FrameId, ServiceId, ServiceType};
pub use set::{
    build_set_response, decide_set, parse_set_request, SetBlock, SetBlockError, SetRequest,
};

verus! {

/// Errors from reading a DCP frame.
#[derive(Debug, Clone, Copy, PartialEq, Eq)]
pub enum DcpError {
    /// Fewer bytes than the element being read needs.
    TooShort {
        /// Bytes the element needs.
        need: usize,
        /// Bytes present.
        have: usize,
    },
    /// A `ServiceID` that is none of the known ones.
    BadServiceId(u8),
    /// A `ServiceType` that is none of the known ones.
    BadServiceType(u8),
    /// A block violates a structural rule.
    Malformed(&'static str),
}

/// A device's station names, numbers and IP suite, as configured. A Set request is decided by
/// the suite.
#[derive(Debug, Clone, PartialEq, Eq)]
pub struct DeviceProperties {
    pub name_of_station: String,
    pub type_of_station: String,
    pub vendor_id: u16,
    pub device_id: u16,
    pub device_role: u16,
    pub device_instance: u16,
    pub device_options: Vec<u8>,
    pub ip: [u8; 4],
    pub subnet: [u8; 4],
    pub gateway: [u8; 4],
    pub ip_block_info: u16,
}

/// A device's address and identity.
#[derive(Debug, Clone, PartialEq, Eq)]
pub struct DcpConfig {
    pub mac: MacAddr,
    pub properties: DeviceProperties,
}

/// What the header of an Ethernet frame that is too short lacks.
pub open spec fn short_frame(e: EthError) -> DcpError {
    match e {
        EthError::TooShort { need, have } => DcpError::TooShort { need, have },
    }
}

/// What a frame holds, if it is a DCP frame with this FrameID: who sent it, its header, and
/// its block bytes.
pub open spec fn service_of(frame: Seq<u8>, id: FrameId) -> Result<
    Option<(MacAddr, DcpHeader, Seq<u8>)>,
    DcpError,
> {
    match EthHeader::spec_parse(frame) {
        Err(e) => Err(short_frame(e)),
        Ok((eth, off)) => if eth.ethertype != ETHERTYPE_PROFINET {
            Ok(None)
        } else if frame.len() < off + 2 {
            Err(DcpError::TooShort { need: (off + 2) as usize, have: frame.len() as usize })
        } else if FrameId::from_u16(bytes::be16(frame, off as int)) != Some(id) {
            Ok(None)
        } else {
            match DcpHeader::spec_parse(frame.skip(off + 2)) {
                Err(e) => Err(e),
                Ok((h, blocks)) => Ok(Some((eth.src, h, blocks))),
            }
        },
    }
}

/// The Set request that a frame carries, if it does: who sent it, its transaction id, and
/// its block bytes. A frame that is not a DCP frame carries none; neither does one that is
/// no Set request.
pub open spec fn set_request_of(frame: Seq<u8>) -> Result<
    Option<(MacAddr, u32, Seq<u8>)>,
    DcpError,
> {
    match service_of(frame, FrameId::GetSet) {
        Err(e) => Err(e),
        Ok(Some((from, h, blocks))) if h.service_id == ServiceId::SetRecord && h.service_type
            == ServiceType::Request => Ok(Some((from, h.xid, blocks))),
        Ok(_) => Ok(None),
    }
}

fn read_service<'a>(frame: &'a [u8], id: FrameId) -> (res: Result<
    Option<(MacAddr, DcpHeader, &'a [u8])>,
    DcpError,
>)
    ensures
        match service_of(frame@, id) {
            Err(e) => res == Err::<Option<(MacAddr, DcpHeader, &'a [u8])>, _>(e),
            Ok(None) => res matches Ok(None),
            Ok(Some((from, h, blocks))) => res matches Ok(Some((f, x, b))) && f == from && x == h
                && b@ == blocks,
        },
{
    let (eth, off) = match EthHeader::parse(frame) {
        Ok(x) => x,
        Err(EthError::TooShort { need, have }) => {
            return Err(DcpError::TooShort { need, have });
        },
    };
    if eth.ethertype != ETHERTYPE_PROFINET {
        return Ok(None);
    }
    if frame.len() < off + 2 {
        return Err(DcpError::TooShort { need: off + 2, have: frame.len() });
    }
    match FrameId::from_u16(bytes::read_be16(frame, off)) {
        Some(found) if found == id => {},
        _ => {
            return Ok(None);
        },
    }
    let rest = slice_subrange(frame, off + 2, frame.len());
    assert(rest@ =~= frame@.skip(off + 2));
    let (h, blocks) = DcpHeader::parse(rest)?;
    Ok(Some((eth.src, h, blocks)))
}

/// An Identify request: which stations are there?
#[derive(Debug, Clone, PartialEq, Eq)]
pub struct IdentifyRequest {
    /// Who asks, and is to be answered.
    pub from: MacAddr,
    /// The transaction id that an answer repeats.
    pub xid: u32,
    /// How long a station is to randomize its answer's delay over.
    pub response_delay: u16,
    /// The blocks that say which stations are meant.
    pub blocks: Vec<u8>,
}

/// What an [`IdentifyRequest`] holds.
pub struct IdentifyView {
    pub from: MacAddr,
    pub xid: u32,
    pub response_delay: u16,
    pub blocks: Seq<u8>,
}

impl View for IdentifyRequest {
    type V = IdentifyView;

    open spec fn view(&self) -> IdentifyView {
        IdentifyView {
            from: self.from,
            xid: self.xid,
            response_delay: self.response_delay,
            blocks: self.blocks@,
        }
    }
}

/// The Identify request that a frame carries, if it does.
pub open spec fn spec_identify_request(frame: Seq<u8>) -> Result<Option<IdentifyView>, DcpError> {
    match service_of(frame, FrameId::IdentifyRequest) {
        Err(e) => Err(e),
        Ok(Some((from, h, blocks))) if h.service_id == ServiceId::Identify && h.service_type
            == ServiceType::Request => Ok(
            Some(IdentifyView { from, xid: h.xid, response_delay: h.response_delay, blocks }),
        ),
        Ok(_) => Ok(None),
    }
}

/// Whether a result is the Identify request that a frame carries.
pub open spec fn identifies(
    frame: Seq<u8>,
    res: Result<Option<IdentifyRequest>, DcpError>,
) -> bool {
    match spec_identify_request(frame) {
        Err(e) => res == Err::<Option<IdentifyRequest>, _>(e),
        Ok(None) => res == Ok::<Option<IdentifyRequest>, DcpError>(None),
        Ok(Some(req)) => res matches Ok(Some(r)) && r@ == req,
    }
}

/// Reads the Identify request that a frame carries; none for a frame that is not a DCP frame
/// with that FrameID, or carries another service.
pub fn identify_request_of(frame: &[u8]) -> (res: Result<Option<IdentifyRequest>, DcpError>)
    ensures
        identifies(frame@, res),
{
    match read_service(frame, FrameId::IdentifyRequest)? {
        Some((from, h, blocks)) => if h.service_id == ServiceId::Identify && h.service_type
            == ServiceType::Request {
            Ok(
                Some(
                    IdentifyRequest {
                        from,
                        xid: h.xid,
                        response_delay: h.response_delay,
                        blocks: slice_to_vec(blocks),
                    },
                ),
            )
        } else {
            Ok(None)
        },
        None => Ok(None),
    }
}

/// Whether a frame is a PROFINET frame with the FrameID of Identify requests.
pub open spec fn is_identify(frame: Seq<u8>) -> bool {
    match EthHeader::spec_parse(frame) {
        Ok((eth, off)) => eth.ethertype == ETHERTYPE_PROFINET && frame.len() >= off + 2
            && FrameId::from_u16(bytes::be16(frame, off as int)) == Some(FrameId::IdentifyRequest),
        Err(_) => false,
    }
}

/// Whether a frame is a PROFINET frame with the FrameID of Identify requests.
pub fn is_identify_frame(frame: &[u8]) -> (r: bool)
    ensures
        r == is_identify(frame@),
{
    match EthHeader::parse(frame) {
        Ok((eth, off)) => eth.ethertype == ETHERTYPE_PROFINET && frame.len() >= off + 2
            && FrameId::from_u16(bytes::read_be16(frame, off)) == Some(FrameId::IdentifyRequest),
        Err(_) => false,
    }
}

/// The answer to a Set request: one result per block, in order.
pub open spec fn set_answer(
    request: (MacAddr, u32, Seq<u8>),
    cfg: DcpConfig,
) -> Result<Seq<u8>, DcpError> {
    match set::spec_set_request(request.2) {
        Err(e) => Err(e),
        Ok(blocks) => Ok(
            set::set_response_bytes(
                request.0,
                cfg.mac,
                request.1,
                blocks.map_values(|b: SetBlock| set::decision(b, cfg.properties)),
            ),
        ),
    }
}

/// A block with BlockInfo takes at least six bytes.
proof fn lemma_block_count(b: Seq<u8>)
    ensures
        block::blocks_of(b, true) matches Ok(v) ==> 6 * v.len() <= b.len(),
    decreases b.len(),
{
    if b.len() > 0 {
        match block::block_at(b, true) {
            Ok((_, next)) => {
                if next < b.len() {
                    lemma_block_count(b.skip(next));
                }
            },
            Err(_) => {},
        }
    }
}

/// Answer one received frame: a Set request is decided and answered to its sender. Nothing is
/// promised of a frame with the FrameID of Identify requests, whose answers are not made here;
/// see [`identify_request_of`]. Any other frame is ignored. The answer to a frame of more than
/// three quarters of 64 KiB might not fit its length field.
pub fn handle_dcp_frame(frame: &[u8], cfg: &DcpConfig) -> (res: Result<Option<Vec<u8>>, DcpError>)
    requires
        4 * frame@.len() <= 3 * u16::MAX,
    ensures
        !is_identify(frame@) ==> match set_request_of(frame@) {
            Err(e) => res == Err::<Option<Vec<u8>>, _>(e),
            Ok(None) => res == Ok::<Option<Vec<u8>>, DcpError>(None),
            Ok(Some(request)) => match set_answer(request, *cfg) {
                Err(e) => res == Err::<Option<Vec<u8>>, _>(e),
                Ok(bytes) => res matches Ok(Some(v)) && v@ == bytes,
            },
        },
{
    match read_service(frame, FrameId::GetSet)? {
        Some((from, h, blocks)) => {
            if h.service_id != ServiceId::SetRecord || h.service_type != ServiceType::Request {
                return Ok(None);
            }
            let req = parse_set_request(blocks)?;
            let results = decide_set(&req, &cfg.properties);
            proof {
                lemma_block_count(blocks@);
            }
            Ok(Some(build_set_response(from, cfg.mac, h.xid, &results)))
        },
        None => Ok(None),
    }
}

/// A Set never succeeds on a suite that differs from the configured one, and the device
/// accepts the suite it has.
pub proof fn set_never_changes_the_suite(b: SetBlock, current: DeviceProperties)
    ensures
        set::decision(b, current).2 == SetBlockError::NoError <==> (b matches SetBlock::IpSuite {
            ip,
            subnet,
            gateway,
            ..
        } && ip == current.ip && subnet == current.subnet && gateway == current.gateway),
{
}

/// What a DCP frame is: a PROFINET frame with the FrameID of the service, and behind it a
/// header with its blocks. Other frames carry none.
pub proof fn dcp_frames_are_told_by_their_id(frame: Seq<u8>, id: FrameId)
    requires
        frame.len() <= usize::MAX,
    ensures
        match (EthHeader::spec_parse(frame), service_of(frame, id)) {
            (Err(EthError::TooShort { need, have }), Err(f)) => f == (DcpError::TooShort {
                need,
                have,
            }),
            (Ok((eth, at)), Err(DcpError::TooShort { need, have })) => eth.ethertype == 0x8892 && (
            frame.len() < at + 2 && need == at + 2 && have == frame.len() || frame.len() >= at + 2
                && bytes::be16(frame, at as int) == id.to_u16()),
            (Ok((eth, at)), Err(e)) => eth.ethertype == 0x8892 && bytes::be16(frame, at as int)
                == id.to_u16() && DcpHeader::spec_parse(frame.skip(at + 2)) == Err::<
                (DcpHeader, Seq<u8>),
                _,
            >(e),
            (Ok((eth, at)), Ok(None)) => eth.ethertype != 0x8892 || bytes::be16(frame, at as int)
                != id.to_u16(),
            (Ok((eth, at)), Ok(Some((from, h, blocks)))) => {
                &&& eth.ethertype == 0x8892 && bytes::be16(frame, at as int) == id.to_u16()
                &&& from == eth.src
                &&& DcpHeader::spec_parse(frame.skip(at + 2)) == Ok::<_, DcpError>((h, blocks))
            },
            _ => false,
        },
{
}

/// Which frames carry a Set and which an Identify request: those of their FrameID and their
/// service that are requests. What is read is who sent it, its transaction id and its blocks.
pub proof fn requests_are_told_by_their_service(frame: Seq<u8>)
    ensures
        set_request_of(frame) matches Ok(Some((from, xid, blocks))) ==> {
            &&& service_of(frame, FrameId::GetSet) matches Ok(Some((f, h, b))) && f == from && b
                == blocks && h.xid == xid && h.service_id.to_u8() == 4 && h.service_type.to_u8() == 0
        },
        (service_of(frame, FrameId::GetSet) matches Ok(Some((f, h, b))) && h.service_id.to_u8() == 4
            && h.service_type.to_u8() == 0) ==> set_request_of(frame) matches Ok(Some(_)),
        spec_identify_request(frame) matches Ok(Some(r)) ==> {
            &&& service_of(frame, FrameId::IdentifyRequest) matches Ok(Some((f, h, b))) && f
                == r.from && b == r.blocks && h.xid == r.xid && h.response_delay
                == r.response_delay && h.service_id.to_u8() == 5 && h.service_type.to_u8() == 0
        },
        (service_of(frame, FrameId::IdentifyRequest) matches Ok(Some((f, h, b)))
            && h.service_id.to_u8() == 5 && h.service_type.to_u8() == 0) ==> spec_identify_request(
            frame,
        ) matches Ok(Some(_)),
        is_identify(frame) <==> (EthHeader::spec_parse(frame) matches Ok((eth, at)) && eth.ethertype
            == 0x8892 && frame.len() >= at + 2 && bytes::be16(frame, at as int) == 0xFEFE),
{
}

/// A Set is answered to its sender, from the device, with its transaction id and one result per
/// block.
pub proof fn sets_are_answered_to_their_sender(request: (MacAddr, u32, Seq<u8>), cfg: DcpConfig)
    ensures
        match set::spec_set_request(request.2) {
            Err(e) => set_answer(request, cfg) == Err::<Seq<u8>, _>(e),
            Ok(blocks) => exists|results: Seq<(u8, u8, SetBlockError)>|
                {
                    &&& results.len() == blocks.len()
                    &&& forall|i: int|
                        0 <= i < blocks.len() ==> #[trigger] results[i] == set::decision(
                            blocks[i],
                            cfg.properties,
                        )
                    &&& set_answer(request, cfg) == Ok::<_, DcpError>(
                        #[trigger] set::set_response_bytes(request.0, cfg.mac, request.1, results),
                    )
                },
        },
{
    if let Ok(blocks) = set::spec_set_request(request.2) {
        let results = blocks.map_values(|b: SetBlock| set::decision(b, cfg.properties));
        assert(set_answer(request, cfg) == Ok::<_, DcpError>(
            set::set_response_bytes(request.0, cfg.mac, request.1, results),
        ));
    }
}

} // verus!
