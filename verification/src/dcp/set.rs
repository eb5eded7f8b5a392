//! DCP Set: parse the IP-suite Set request, decide (guarded), build the response.
//!
//! The interface address is never changed by this stack: [`decide_set`] only ever accepts a
//! Set that matches the IP suite the device already has; anything else is reported as
//! refused, not applied.

use vstd::prelude::*;

use crate::bytes;
use crate::dcp::block::{self, parse_blocks, write_blocks, DcpBlock};
use crate::dcp::frame::{DcpHeader, FrameId, ServiceId, ServiceType};
use crate::dcp::{DcpError, DeviceProperties};
use crate::eth::{EthHeader, MacAddr, ETHERTYPE_PROFINET};

verus! {

/// One block from a Set request, decoded.
#[derive(Debug, Clone, Copy, PartialEq, Eq)]
pub enum SetBlock {
    /// IP option (1), suboption 2 (IPParameter): the qualifier and requested triple.
    IpSuite { qualifier: u16, ip: [u8; 4], subnet: [u8; 4], gateway: [u8; 4] },
    /// Any other option/suboption we don't implement.
    Other { option: u8, suboption: u8 },
}

/// A parsed DCP Set request: the ordered list of blocks it carries.
#[derive(Debug, Clone, PartialEq, Eq)]
pub struct SetRequest {
    pub blocks: Vec<SetBlock>,
}

/// Per-block Set result, carried in the Control/Response block of the reply.
#[derive(Debug, Clone, Copy, PartialEq, Eq, Structural)]
pub enum SetBlockError {
    NoError,
    OptionNotSupported,
    SuboptionNotSupported,
    SuboptionNotSet,
    ResourceError,
    SetNotPossible,
}

impl SetBlockError {
    /// The result's number on the wire.
    #[verifier::allow_in_spec]
    pub fn code(self) -> u8
        returns
            (match self {
                SetBlockError::NoError => 0x00u8,
                SetBlockError::OptionNotSupported => 0x01u8,
                SetBlockError::SuboptionNotSupported => 0x02u8,
                SetBlockError::SuboptionNotSet => 0x03u8,
                SetBlockError::ResourceError => 0x04u8,
                SetBlockError::SetNotPossible => 0x05u8,
            }),
    {
        match self {
            SetBlockError::NoError => 0x00,
            SetBlockError::OptionNotSupported => 0x01,
            SetBlockError::SuboptionNotSupported => 0x02,
            SetBlockError::SuboptionNotSet => 0x03,
            SetBlockError::ResourceError => 0x04,
            SetBlockError::SetNotPossible => 0x05,
        }
    }
}

/// The four bytes at offset `i`.
pub open spec fn quad(b: Seq<u8>, i: int) -> [u8; 4] {
    [b[i], b[i + 1], b[i + 2], b[i + 3]]
}

fn read_quad(b: &Vec<u8>, i: usize) -> (q: [u8; 4])
    requires
        i + 4 <= b.len(),
    ensures
        q == quad(b@, i as int),
{
    [b[i], b[i + 1], b[i + 2], b[i + 3]]
}

/// Whether two addresses are the same.
fn same_quad(a: [u8; 4], b: [u8; 4]) -> (r: bool)
    ensures
        r == (a == b),
{
    let r = a[0] == b[0] && a[1] == b[1] && a[2] == b[2] && a[3] == b[3];
    proof {
        if r {
            assert(a =~= b);
        }
    }
    r
}

/// Whether a block is an IP parameter block.
pub open spec fn is_ip_parameter(b: block::DcpBlockView) -> bool {
    b.option == 1 && b.suboption == 2
}

/// Whether a block's value does not fit its option.
pub open spec fn is_malformed(b: block::DcpBlockView) -> bool {
    is_ip_parameter(b) && b.value.len() != 12
}

/// A well-formed block of a Set request, decoded.
pub open spec fn set_block_of(b: block::DcpBlockView) -> SetBlock {
    if is_ip_parameter(b) {
        SetBlock::IpSuite {
            qualifier: b.block_info->0,
            ip: quad(b.value, 0),
            subnet: quad(b.value, 4),
            gateway: quad(b.value, 8),
        }
    } else {
        SetBlock::Other { option: b.option, suboption: b.suboption }
    }
}

/// What the block bytes of a Set request read as.
pub open spec fn spec_set_request(block_bytes: Seq<u8>) -> Result<Seq<SetBlock>, DcpError> {
    match block::blocks_of(block_bytes, true) {
        Err(e) => Err(e),
        Ok(blocks) => if exists|i: int| 0 <= i < blocks.len() && is_malformed(#[trigger] blocks[i]) {
            Err(DcpError::Malformed("IPParameter value must be 12 bytes"))
        } else {
            Ok(blocks.map_values(|b: block::DcpBlockView| set_block_of(b)))
        },
    }
}

/// Every block read with a BlockInfo has one.
proof fn lemma_blocks_have_info(b: Seq<u8>)
    ensures
        block::blocks_of(b, true) matches Ok(v) ==> forall|i: int|
            0 <= i < v.len() ==> (#[trigger] v[i]).block_info is Some,
    decreases b.len(),
{
    if b.len() > 0 {
        match block::block_at(b, true) {
            Ok((first, next)) => {
                if next < b.len() {
                    lemma_blocks_have_info(b.skip(next));
                }
            },
            Err(_) => {},
        }
    }
}

/// Parse the block bytes of a Set request. Set request blocks carry a 2-byte BlockQualifier
/// where responses carry BlockInfo, so this reads with `has_block_info = true` and treats
/// `block_info` as the qualifier.
pub fn parse_set_request(block_bytes: &[u8]) -> (res: Result<SetRequest, DcpError>)
    ensures
        match res {
            Ok(req) => spec_set_request(block_bytes@) == Ok::<_, DcpError>(req.blocks@),
            Err(e) => spec_set_request(block_bytes@) == Err::<Seq<SetBlock>, _>(e),
        },
{
    let blocks = parse_blocks(block_bytes, true)?;
    let ghost views = block::block_views(blocks@);
    proof {
        lemma_blocks_have_info(block_bytes@);
    }
    let mut out: Vec<SetBlock> = Vec::new();
    let mut i: usize = 0;
    while i < blocks.len()
        invariant
            i <= blocks@.len(),
            views == block::block_views(blocks@),
            block::blocks_of(block_bytes@, true) == Ok::<_, DcpError>(views),
            forall|k: int| 0 <= k < views.len() ==> (#[trigger] views[k]).block_info is Some,
            forall|k: int| 0 <= k < i ==> !is_malformed(#[trigger] views[k]),
            out@ == views.take(i as int).map_values(|b: block::DcpBlockView| set_block_of(b)),
        decreases blocks@.len() - i,
    {
        let b = &blocks[i];
        assert(views[i as int] == b@);
        let qualifier: u16 = match b.block_info {
            Some(q) => q,
            None => 0,
        };
        if b.option == 1 && b.suboption == 2 {
            if b.value.len() != 12 {
                assert(is_malformed(views[i as int]));
                return Err(DcpError::Malformed("IPParameter value must be 12 bytes"));
            }
            out.push(
                SetBlock::IpSuite {
                    qualifier,
                    ip: read_quad(&b.value, 0),
                    subnet: read_quad(&b.value, 4),
                    gateway: read_quad(&b.value, 8),
                },
            );
        } else {
            out.push(SetBlock::Other { option: b.option, suboption: b.suboption });
        }
        i = i + 1;
        assert(out@ =~= views.take(i as int).map_values(
            |b: block::DcpBlockView| set_block_of(b),
        ));
    }
    assert(views.take(i as int) =~= views);
    Ok(SetRequest { blocks: out })
}

/// The outcome of one block: accepted only where the whole suite is the configured one.
pub open spec fn decision(b: SetBlock, current: DeviceProperties) -> (u8, u8, SetBlockError) {
    match b {
        SetBlock::IpSuite { ip, subnet, gateway, .. } => if ip == current.ip && subnet
            == current.subnet && gateway == current.gateway {
            (1, 2, SetBlockError::NoError)
        } else {
            (1, 2, SetBlockError::SetNotPossible)
        },
        SetBlock::Other { option, suboption } => (
            option,
            suboption,
            SetBlockError::SuboptionNotSupported,
        ),
    }
}

/// Decide the outcome of each block in a Set request against the device's current IP suite.
/// The interface is **never** modified: "no error" means the whole requested suite (ip,
/// subnet **and** gateway) already equals the configured one; any difference in any of the
/// three is refused with `SetNotPossible`. Unsupported options are refused with
/// `SuboptionNotSupported`.
pub fn decide_set(req: &SetRequest, current: &DeviceProperties) -> (r: Vec<
    (u8, u8, SetBlockError),
>)
    ensures
        r@ == req.blocks@.map_values(|b: SetBlock| decision(b, *current)),
{
    let mut out: Vec<(u8, u8, SetBlockError)> = Vec::new();
    let mut i: usize = 0;
    while i < req.blocks.len()
        invariant
            i <= req.blocks@.len(),
            out@ == req.blocks@.take(i as int).map_values(|b: SetBlock| decision(b, *current)),
        decreases req.blocks@.len() - i,
    {
        match req.blocks[i] {
            SetBlock::IpSuite { ip, subnet, gateway, .. } => {
                if same_quad(ip, current.ip) && same_quad(subnet, current.subnet) && same_quad(
                    gateway,
                    current.gateway,
                ) {
                    out.push((1, 2, SetBlockError::NoError));
                } else {
                    out.push((1, 2, SetBlockError::SetNotPossible));
                }
            },
            SetBlock::Other { option, suboption } => {
                out.push((option, suboption, SetBlockError::SuboptionNotSupported));
            },
        }
        i = i + 1;
        assert(out@ =~= req.blocks@.take(i as int).map_values(
            |b: SetBlock| decision(b, *current),
        ));
    }
    assert(req.blocks@.take(i as int) =~= req.blocks@);
    out
}

/// The Control/Response block of one result.
pub open spec fn result_block(r: (u8, u8, SetBlockError)) -> block::DcpBlockView {
    block::DcpBlockView {
        option: 5,
        suboption: 4,
        block_info: None,
        value: seq![r.0, r.1, r.2.code()],
    }
}

/// The Control/Response blocks of a list of results.
pub open spec fn result_blocks(results: Seq<(u8, u8, SetBlockError)>) -> Seq<
    block::DcpBlockView,
> {
    results.map_values(|r: (u8, u8, SetBlockError)| result_block(r))
}

/// The header of a Set response in front of `data_length` block bytes.
pub open spec fn response_header(xid: u32, data_length: int) -> DcpHeader {
    DcpHeader {
        service_id: ServiceId::SetRecord,
        service_type: ServiceType::ResponseSuccess,
        xid,
        response_delay: 0,
        data_length: data_length as u16,
    }
}

/// The bytes of a Set response frame.
pub open spec fn set_response_bytes(
    dst: MacAddr,
    src: MacAddr,
    xid: u32,
    results: Seq<(u8, u8, SetBlockError)>,
) -> Seq<u8> {
    let blocks = block::blocks_bytes(result_blocks(results));
    EthHeader { dst, src, vlan: None, ethertype: ETHERTYPE_PROFINET }.spec_bytes()
        + bytes::be16_bytes(FrameId::GetSet.to_u16()) + response_header(
        xid,
        blocks.len() as int,
    ).spec_bytes() + blocks
}

/// Each result takes eight bytes.
pub proof fn lemma_result_blocks_len(results: Seq<(u8, u8, SetBlockError)>)
    ensures
        block::blocks_bytes(result_blocks(results)).len() == 8 * results.len(),
    decreases results.len(),
{
    let blocks = result_blocks(results);
    if results.len() > 0 {
        lemma_result_blocks_len(results.drop_last());
        assert(blocks.drop_last() =~= result_blocks(results.drop_last()));
        assert(blocks.last().spec_bytes().len() == 8);
    }
}

/// Build the full Ethernet frame of a Set response (untagged, no BlockInfo on the
/// Control/Response blocks) carrying one result per input tuple.
pub fn build_set_response(
    dst: MacAddr,
    src: MacAddr,
    xid: u32,
    results: &Vec<(u8, u8, SetBlockError)>,
) -> (out: Vec<u8>)
    requires
        8 * results@.len() <= u16::MAX,
    ensures
        out@ == set_response_bytes(dst, src, xid, results@),
{
    let mut blocks: Vec<DcpBlock> = Vec::new();
    let mut i: usize = 0;
    while i < results.len()
        invariant
            i <= results@.len(),
            block::block_views(blocks@) == result_blocks(results@.take(i as int)),
        decreases results@.len() - i,
    {
        let (option, suboption, err) = results[i];
        let block = DcpBlock {
            option: 5,
            suboption: 4,
            block_info: None,
            value: vec![option, suboption, err.code()],
        };
        assert(block.value@ =~= seq![option, suboption, err.code()]);
        assert(block@ == result_block(results@[i as int]));
        let ghost before = block::block_views(blocks@);
        blocks.push(block);
        proof {
            assert(block::block_views(blocks@) =~= before.push(block@));
            assert(result_blocks(results@.take(i + 1)) =~= result_blocks(
                results@.take(i as int),
            ).push(result_block(results@[i as int])));
        }
        i = i + 1;
    }
    proof {
        assert(results@.take(i as int) =~= results@);
        lemma_result_blocks_len(results@);
    }
    let header = DcpHeader {
        service_id: ServiceId::SetRecord,
        service_type: ServiceType::ResponseSuccess,
        xid,
        response_delay: 0,
        data_length: block::blocks_encoded_len(&blocks),
    };
    let mut out: Vec<u8> = Vec::new();
    let eth = EthHeader { dst, src, vlan: None, ethertype: ETHERTYPE_PROFINET };
    eth.write(&mut out);
    bytes::put_be16(&mut out, FrameId::GetSet.to_u16());
    header.write(&mut out);
    write_blocks(&blocks, &mut out);
    assert(out@ =~= set_response_bytes(dst, src, xid, results@));
    out
}

/// The numbers of the results.
pub proof fn results_have_their_numbers(e: SetBlockError)
    ensures
        e.code() == 0 <==> e == SetBlockError::NoError,
        e.code() == 1 <==> e == SetBlockError::OptionNotSupported,
        e.code() == 2 <==> e == SetBlockError::SuboptionNotSupported,
        e.code() == 3 <==> e == SetBlockError::SuboptionNotSet,
        e.code() == 4 <==> e == SetBlockError::ResourceError,
        e.code() == 5 <==> e == SetBlockError::SetNotPossible,
{
}

/// What a block of a Set asks for: the IP parameter is option 1, suboption 2, its qualifier in
/// front and the address, the mask and the router behind, four bytes each; any other block is
/// known by its option.
pub proof fn set_blocks_are_read_by_place(b: block::DcpBlockView)
    ensures
        match set_block_of(b) {
            SetBlock::IpSuite { qualifier, ip, subnet, gateway } => {
                &&& b.option == 1 && b.suboption == 2
                &&& b.block_info matches Some(q) ==> qualifier == q
                &&& b.value.len() == 12 ==> {
                    &&& ip@ == b.value.subrange(0, 4)
                    &&& subnet@ == b.value.subrange(4, 8)
                    &&& gateway@ == b.value.subrange(8, 12)
                }
            },
            SetBlock::Other { option, suboption } => {
                &&& b.option != 1 || b.suboption != 2
                &&& option == b.option && suboption == b.suboption
            },
        },
        is_malformed(b) <==> b.option == 1 && b.suboption == 2 && b.value.len() != 12,
{
    if b.option == 1 && b.suboption == 2 && b.value.len() == 12 {
        assert(quad(b.value, 0)@ =~= b.value.subrange(0, 4));
        assert(quad(b.value, 4)@ =~= b.value.subrange(4, 8));
        assert(quad(b.value, 8)@ =~= b.value.subrange(8, 12));
    }
}

/// A Set is read block by block, and refused just where a block cannot be read or its IP
/// parameter has not twelve bytes.
pub proof fn sets_are_read_block_by_block(b: Seq<u8>)
    ensures
        match (block::blocks_of(b, true), spec_set_request(b)) {
            (Err(e), Err(f)) => e == f,
            (Ok(blocks), Ok(sets)) => {
                &&& sets.len() == blocks.len()
                &&& forall|i: int|
                    0 <= i < blocks.len() ==> #[trigger] sets[i] == set_block_of(blocks[i])
                        && !is_malformed(blocks[i])
            },
            (Ok(blocks), Err(f)) => f is Malformed && exists|i: int|
                0 <= i < blocks.len() && is_malformed(#[trigger] blocks[i]),
            _ => false,
        },
{
    if let (Ok(blocks), Ok(sets)) = (block::blocks_of(b, true), spec_set_request(b)) {
        assert forall|i: int| 0 <= i < blocks.len() implies #[trigger] sets[i] == set_block_of(
            blocks[i],
        ) && !is_malformed(blocks[i]) by {}
    }
}

/// What each block of a Set is answered: the suite of the device is accepted, any other
/// refused; what is no IP parameter is not supported. The result names the block's option.
pub proof fn each_block_is_answered_by_its_option(b: SetBlock, current: DeviceProperties)
    ensures
        ({
            let (option, suboption, result) = decision(b, current);
            match b {
                SetBlock::IpSuite { ip, subnet, gateway, .. } => {
                    let same = ip == current.ip && subnet == current.subnet && gateway
                        == current.gateway;
                    &&& option == 1 && suboption == 2
                    &&& same ==> result == SetBlockError::NoError
                    &&& !same ==> result == SetBlockError::SetNotPossible
                },
                SetBlock::Other { option: o, suboption: s } => {
                    &&& option == o && suboption == s
                    &&& result == SetBlockError::SuboptionNotSupported
                },
            }
        }),
{
}

/// A result takes eight bytes: option 5, suboption 4, a length of three, the option and
/// suboption that it is about, its number, and a zero behind them.
pub proof fn results_take_eight_bytes(r: (u8, u8, SetBlockError))
    ensures
        result_block(r).spec_bytes() == seq![5u8, 4u8, 0u8, 3u8, r.0, r.1, r.2.code(), 0u8],
{
    assert(result_block(r).spec_bytes() =~= seq![5u8, 4u8, 0u8, 3u8, r.0, r.1, r.2.code(), 0u8]);
}

/// Where the parts of a Set response stand: it is addressed to the sender, repeats the
/// transaction id, and carries the results.
pub proof fn set_responses_stand_on_the_wire(
    dst: MacAddr,
    src: MacAddr,
    xid: u32,
    results: Seq<(u8, u8, SetBlockError)>,
)
    requires
        8 * results.len() <= u16::MAX,
    ensures
        ({
            let b = set_response_bytes(dst, src, xid, results);
            &&& b.len() == 26 + 8 * results.len()
            &&& crate::eth::mac_at(b, 0) == dst
            &&& crate::eth::mac_at(b, 6) == src
            &&& bytes::be16(b, 12) == 0x8892
            &&& bytes::be16(b, 14) == 0xFEFD
            &&& b[16] == 4 && b[17] == 1
            &&& bytes::be32(b, 18) == xid
            &&& bytes::be16(b, 22) == 0
            &&& bytes::be16(b, 24) == 8 * results.len()
            &&& b.skip(26) == block::blocks_bytes(result_blocks(results))
        }),
{
    let b = set_response_bytes(dst, src, xid, results);
    let blocks = block::blocks_bytes(result_blocks(results));
    let e = EthHeader { dst, src, vlan: None, ethertype: ETHERTYPE_PROFINET };
    let h = response_header(xid, blocks.len() as int);
    lemma_result_blocks_len(results);
    crate::eth::headers_stand_at_their_places(e);
    crate::dcp::frame::dcp_headers_stand_at_their_places(h);
    let eb = e.spec_bytes();
    let hb = h.spec_bytes();
    assert(eb.len() == 14 && hb.len() == 10);
    assert forall|i: int| 0 <= i < 14 implies #[trigger] b[i] == eb[i] by {}
    assert(b.subrange(14, 16) =~= bytes::be16_bytes(0xFEFD));
    crate::eth::lemma_at_16(b, 14, 0xFEFD);
    assert(b[16] == hb[0] && b[17] == hb[1] && b[18] == hb[2] && b[19] == hb[3] && b[20] == hb[4]
        && b[21] == hb[5] && b[22] == hb[6] && b[23] == hb[7] && b[24] == hb[8] && b[25] == hb[9]);
    assert(b.skip(26) =~= blocks);
}

/// The results stand one behind the other, in order.
pub proof fn results_stand_in_order(results: Seq<(u8, u8, SetBlockError)>, i: int)
    requires
        0 <= i < results.len(),
    ensures
        block::blocks_bytes(result_blocks(results)).subrange(8 * i, 8 * i + 8) == result_block(
            results[i],
        ).spec_bytes(),
    decreases results.len(),
{
    let front = results.drop_last();
    lemma_result_blocks_len(results);
    lemma_result_blocks_len(front);
    results_take_eight_bytes(results.last());
    let all = block::blocks_bytes(result_blocks(results));
    let before = block::blocks_bytes(result_blocks(front));
    assert(result_blocks(results).drop_last() =~= result_blocks(front));
    if i < front.len() {
        results_stand_in_order(front, i);
        assert(all.subrange(8 * i, 8 * i + 8) =~= before.subrange(8 * i, 8 * i + 8));
    } else {
        assert(all.subrange(8 * i, 8 * i + 8) =~= result_block(results.last()).spec_bytes());
    }
}

} // verus!
