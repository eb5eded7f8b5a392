//! Connect request/response: groups the parsed Connect-request blocks, validates them
//! against a `DeviceModel`, extracts the AR parameters, and builds the Connect response's
//! PNIO blocks.

use vstd::prelude::*;

use vstd::utf8;

use crate::bytes;
use crate::cm::block::{
    self, AlarmCrBlockReq, ArBlockReq, BlockHeader, ExpectedSubmoduleBlockReq, IocrBlockReq,
    IocrObject,
};
use crate::cm::block::ty;
use crate::cm::model::{find_slot, DeviceModel};
use crate::cm::{BlockError, CmError, ConnectBlock, PnioStatus};
use crate::eth::MacAddr;
use crate::rpc::{Drep, Uuid};

verus! {

/// The fault of the first faulty item of `s`, if any is.
pub open spec fn first_fault<T, E>(s: Seq<T>, fault: spec_fn(T) -> Option<E>) -> Option<E>
    decreases s.len(),
{
    if s.len() == 0 {
        None
    } else {
        match first_fault(s.drop_last(), fault) {
            Some(e) => Some(e),
            None => fault(s.last()),
        }
    }
}

/// Where the items before `i` have no fault, the item at `i` decides whether the items up
/// to and with it have one.
pub proof fn lemma_first_fault_step<T, E>(s: Seq<T>, i: int, fault: spec_fn(T) -> Option<E>)
    requires
        0 <= i < s.len(),
        first_fault(s.take(i), fault) is None,
    ensures
        first_fault(s.take(i + 1), fault) == fault(s[i]),
{
    assert(s.take(i + 1).drop_last() =~= s.take(i));
    assert(s.take(i + 1).last() == s[i]);
}

/// A fault among the first `i` items is the fault of the whole.
pub proof fn lemma_first_fault_prefix<T, E>(s: Seq<T>, i: int, fault: spec_fn(T) -> Option<E>)
    requires
        0 <= i <= s.len(),
        first_fault(s.take(i), fault) is Some,
    ensures
        first_fault(s, fault) == first_fault(s.take(i), fault),
    decreases s.len() - i,
{
    if i == s.len() {
        assert(s.take(i) =~= s);
    } else {
        assert(s.take(i + 1).drop_last() =~= s.take(i));
        lemma_first_fault_prefix(s, i + 1, fault);
    }
}

// ---------------------------------------------------------------------------------
// ConnectReq: the grouped Connect-request blocks.
// ---------------------------------------------------------------------------------

/// The Connect request's blocks, grouped by type; see [`ConnectReq::parse`].
#[derive(Debug, Clone, PartialEq)]
pub struct ConnectReq {
    /// The (single, required) ARBlockReq.
    pub ar: ArBlockReq,
    /// The IOCRBlockReq blocks, in request order (normally one Input, one Output).
    pub iocrs: Vec<IocrBlockReq>,
    /// The ExpectedSubmoduleBlockReq blocks, in request order.
    pub expected: Vec<ExpectedSubmoduleBlockReq>,
    /// The (single, required) AlarmCRBlockReq.
    pub alarm_cr: AlarmCrBlockReq,
}

/// The bodies of the blocks of type `t`, in order.
pub open spec fn bodies_of(blocks: Seq<(BlockHeader, Seq<u8>)>, t: u16) -> Seq<Seq<u8>>
    decreases blocks.len(),
{
    if blocks.len() == 0 {
        Seq::empty()
    } else if blocks.last().0.block_type == t {
        bodies_of(blocks.drop_last(), t).push(blocks.last().1)
    } else {
        bodies_of(blocks.drop_last(), t)
    }
}

/// An error of a block's body as an error of the request.
pub open spec fn block_fault(e: Option<BlockError>) -> Option<CmError> {
    match e {
        Some(e) => Some(CmError::Block(e)),
        None => None,
    }
}

/// What is wrong with `last` behind the blocks `earlier`, if anything: a second ARBlockReq
/// or AlarmCRBlockReq, an unknown type, or a body that does not parse.
pub open spec fn next_block_fault(
    earlier: Seq<(BlockHeader, Seq<u8>)>,
    last: (BlockHeader, Seq<u8>),
) -> Option<CmError> {
    let body = last.1;
    let t = last.0.block_type;
    if t == ty::AR_BLOCK_REQ {
        if bodies_of(earlier, t).len() > 0 {
            Some(CmError::Reject(PnioStatus::connect_reject(ConnectBlock::ArBlock, 0)))
        } else {
            block_fault(ArBlockReq::fault(body))
        }
    } else if t == ty::IOCR_BLOCK_REQ {
        block_fault(IocrBlockReq::fault(body))
    } else if t == ty::EXPECTED_SUBMODULE_BLOCK_REQ {
        block_fault(ExpectedSubmoduleBlockReq::spec_parse(body).err())
    } else if t == ty::ALARM_CR_BLOCK_REQ {
        if bodies_of(earlier, t).len() > 0 {
            Some(CmError::Reject(PnioStatus::connect_reject(ConnectBlock::AlarmCr, 0)))
        } else {
            block_fault(AlarmCrBlockReq::spec_parse(body).err())
        }
    } else {
        Some(CmError::Reject(PnioStatus::connect_reject(ConnectBlock::ArBlock, 0xff)))
    }
}

/// The fault of the first faulty block, if any is.
pub open spec fn blocks_fault(blocks: Seq<(BlockHeader, Seq<u8>)>) -> Option<CmError>
    decreases blocks.len(),
{
    if blocks.len() == 0 {
        None
    } else {
        match blocks_fault(blocks.drop_last()) {
            Some(e) => Some(e),
            None => next_block_fault(blocks.drop_last(), blocks.last()),
        }
    }
}

/// A fault among the first `i` blocks is the fault of the whole.
proof fn lemma_blocks_fault_prefix(blocks: Seq<(BlockHeader, Seq<u8>)>, i: int)
    requires
        0 <= i <= blocks.len(),
        blocks_fault(blocks.take(i)) is Some,
    ensures
        blocks_fault(blocks) == blocks_fault(blocks.take(i)),
    decreases blocks.len() - i,
{
    if i == blocks.len() {
        assert(blocks.take(i) =~= blocks);
    } else {
        assert(blocks.take(i + 1).drop_last() =~= blocks.take(i));
        lemma_blocks_fault_prefix(blocks, i + 1);
    }
}

impl ConnectReq {
    /// Why `blocks` is no Connect request, if it is none: the blocks do not parse, one of
    /// them is at fault, or the ARBlockReq or the AlarmCRBlockReq is missing.
    pub open spec fn fault(blocks: Seq<u8>) -> Option<CmError> {
        match BlockHeader::spec_read_all(blocks) {
            Err(e) => Some(CmError::Block(e)),
            Ok(all) => if blocks_fault(all) is Some {
                blocks_fault(all)
            } else if bodies_of(all, ty::AR_BLOCK_REQ).len() == 0 {
                Some(CmError::Reject(PnioStatus::connect_reject(ConnectBlock::ArBlock, 0)))
            } else if bodies_of(all, ty::ALARM_CR_BLOCK_REQ).len() == 0 {
                Some(CmError::Reject(PnioStatus::connect_reject(ConnectBlock::AlarmCr, 0)))
            } else {
                None
            },
        }
    }

    /// Whether `iocrs` are the parsed IOCR bodies, in order.
    pub open spec fn iocrs_read(iocrs: Seq<IocrBlockReq>, bodies: Seq<Seq<u8>>) -> bool {
        &&& iocrs.len() == bodies.len()
        &&& forall|i: int| 0 <= i < iocrs.len() ==> (#[trigger] iocrs[i]).reads(bodies[i])
    }

    /// Whether `expected` are the parsed expected-submodule bodies, in order.
    pub open spec fn expected_read(
        expected: Seq<ExpectedSubmoduleBlockReq>,
        bodies: Seq<Seq<u8>>,
    ) -> bool {
        &&& expected.len() == bodies.len()
        &&& forall|i: int|
            0 <= i < expected.len() ==> ExpectedSubmoduleBlockReq::spec_parse(bodies[i]) == Ok::<
                _,
                BlockError,
            >((#[trigger] expected[i]).api_views())
    }

    /// Whether `self` holds what the blocks read as, grouped by type.
    pub open spec fn reads(self, blocks: Seq<u8>) -> bool {
        match BlockHeader::spec_read_all(blocks) {
            Err(_) => false,
            Ok(all) => {
                let ar = bodies_of(all, ty::AR_BLOCK_REQ);
                let alarm = bodies_of(all, ty::ALARM_CR_BLOCK_REQ);
                &&& ar.len() == 1
                &&& self.ar.reads(ar[0])
                &&& alarm.len() == 1
                &&& AlarmCrBlockReq::spec_parse(alarm[0]) == Ok::<_, BlockError>(self.alarm_cr)
                &&& Self::iocrs_read(self.iocrs@, bodies_of(all, ty::IOCR_BLOCK_REQ))
                &&& Self::expected_read(
                    self.expected@,
                    bodies_of(all, ty::EXPECTED_SUBMODULE_BLOCK_REQ),
                )
            },
        }
    }

    /// Parse the concatenated PNIO blocks of a Connect request (no RPC header/NDR).
    /// Requires exactly one ARBlockReq and one AlarmCRBlockReq; any other known block type
    /// is grouped, and any unknown block type is rejected.
    pub fn parse(blocks: &[u8]) -> (res: Result<ConnectReq, CmError>)
        ensures
            match res {
                Ok(r) => Self::fault(blocks@) is None && r.reads(blocks@),
                Err(e) => Self::fault(blocks@) == Some(e),
            },
    {
        let all = match BlockHeader::read_all(blocks) {
            Ok(v) => v,
            Err(e) => {
                return Err(CmError::Block(e));
            },
        };
        let ghost list = all@.map_values(|x: (BlockHeader, &[u8])| (x.0, x.1@));
        let mut ar: Option<ArBlockReq> = None;
        let mut iocrs: Vec<IocrBlockReq> = Vec::new();
        let mut expected: Vec<ExpectedSubmoduleBlockReq> = Vec::new();
        let mut alarm_cr: Option<AlarmCrBlockReq> = None;
        let mut i: usize = 0;
        assert(list.take(0) =~= Seq::empty());
        while i < all.len()
            invariant
                i <= all@.len(),
                list == all@.map_values(|x: (BlockHeader, &[u8])| (x.0, x.1@)),
                BlockHeader::spec_read_all(blocks@) == Ok::<_, BlockError>(list),
                blocks_fault(list.take(i as int)) is None,
                match ar {
                    Some(a) => bodies_of(list.take(i as int), ty::AR_BLOCK_REQ).len() == 1
                        && a.reads(bodies_of(list.take(i as int), ty::AR_BLOCK_REQ)[0]),
                    None => bodies_of(list.take(i as int), ty::AR_BLOCK_REQ).len() == 0,
                },
                match alarm_cr {
                    Some(a) => bodies_of(list.take(i as int), ty::ALARM_CR_BLOCK_REQ).len() == 1
                        && AlarmCrBlockReq::spec_parse(
                        bodies_of(list.take(i as int), ty::ALARM_CR_BLOCK_REQ)[0],
                    ) == Ok::<_, BlockError>(a),
                    None => bodies_of(list.take(i as int), ty::ALARM_CR_BLOCK_REQ).len() == 0,
                },
                Self::iocrs_read(iocrs@, bodies_of(list.take(i as int), ty::IOCR_BLOCK_REQ)),
                Self::expected_read(
                    expected@,
                    bodies_of(list.take(i as int), ty::EXPECTED_SUBMODULE_BLOCK_REQ),
                ),
            decreases all@.len() - i,
        {
            let (header, body) = all[i];
            proof {
                let next = list.take(i + 1);
                assert(next.drop_last() =~= list.take(i as int));
                assert(next.last() == (header, body@));
                if blocks_fault(next) is Some {
                    lemma_blocks_fault_prefix(list, i + 1);
                }
            }
            if header.block_type == ty::AR_BLOCK_REQ {
                if ar.is_some() {
                    return Err(
                        CmError::Reject(PnioStatus::connect_reject(ConnectBlock::ArBlock, 0)),
                    );
                }
                match ArBlockReq::parse(body) {
                    Ok(a) => {
                        ar = Some(a);
                    },
                    Err(e) => {
                        return Err(CmError::Block(e));
                    },
                }
            } else if header.block_type == ty::IOCR_BLOCK_REQ {
                match IocrBlockReq::parse(body) {
                    Ok(c) => {
                        iocrs.push(c);
                    },
                    Err(e) => {
                        return Err(CmError::Block(e));
                    },
                }
            } else if header.block_type == ty::EXPECTED_SUBMODULE_BLOCK_REQ {
                match ExpectedSubmoduleBlockReq::parse(body) {
                    Ok(x) => {
                        expected.push(x);
                    },
                    Err(e) => {
                        return Err(CmError::Block(e));
                    },
                }
            } else if header.block_type == ty::ALARM_CR_BLOCK_REQ {
                if alarm_cr.is_some() {
                    return Err(
                        CmError::Reject(PnioStatus::connect_reject(ConnectBlock::AlarmCr, 0)),
                    );
                }
                match AlarmCrBlockReq::parse(body) {
                    Ok(a) => {
                        alarm_cr = Some(a);
                    },
                    Err(e) => {
                        return Err(CmError::Block(e));
                    },
                }
            } else {
                return Err(
                    CmError::Reject(PnioStatus::connect_reject(ConnectBlock::ArBlock, 0xff)),
                );
            }
            i = i + 1;
        }
        assert(list.take(i as int) =~= list);
        let ar = match ar {
            Some(a) => a,
            None => {
                return Err(CmError::Reject(PnioStatus::connect_reject(ConnectBlock::ArBlock, 0)));
            },
        };
        let alarm_cr = match alarm_cr {
            Some(a) => a,
            None => {
                return Err(CmError::Reject(PnioStatus::connect_reject(ConnectBlock::AlarmCr, 0)));
            },
        };
        Ok(ConnectReq { ar, iocrs, expected, alarm_cr })
    }
}

// ---------------------------------------------------------------------------------
// ArParams / IocrParams: the AR parameters extracted from a validated Connect request.
// ---------------------------------------------------------------------------------

/// The AR parameters extracted from a validated Connect request, ready to build the
/// device's layout, alarm channel and Connect response from.
#[derive(Debug, Clone, PartialEq)]
pub struct ArParams {
    /// The AR's identifying UUID (`ARBlockReq.ARUUID`).
    pub ar_uuid: Uuid,
    /// Session key, echoed on every subsequent control exchange for this AR.
    pub session_key: u16,
    /// The controller's MAC address (`ARBlockReq.CMInitiatorMacAdd`).
    pub initiator_mac: MacAddr,
    /// The controller's PNIO object UUID (`ARBlockReq.CMInitiatorObjectUUID`).
    pub initiator_object_uuid: Uuid,
    /// `CMInitiatorActivityTimeoutFactor`.
    pub activity_timeout_factor: u16,
    /// The negotiated Input CR (device-to-controller) parameters.
    pub input_cr: IocrParams,
    /// The negotiated Output CR (controller-to-device) parameters.
    pub output_cr: IocrParams,
    /// The controller's `LocalAlarmReference`, used as `AlarmDstEndpoint` on outgoing alarm
    /// frames.
    pub alarm_ref_remote: u16,
    /// The value this device answers with in `AlarmCRBlockRes.MaxAlarmDataLength`.
    pub max_alarm_data_length: u16,
    /// `AlarmCRBlockReq.MaxAlarmDataLength` as the controller asked for it.
    pub max_alarm_data_length_remote: u16,
    /// `AlarmCRBlockReq.RTATimeoutFactor`: how long to wait for an acknowledgement before
    /// resending.
    pub rta_timeout_factor: u16,
    /// `AlarmCRBlockReq.RTARetries`: resends of an unacknowledged alarm before the channel
    /// gives up and aborts the AR.
    pub rta_retries: u16,
    /// Our own local alarm reference, always 0: what `AlarmCRBlockRes` answers.
    pub alarm_ref_local: u16,
    /// The VLAN TCI negotiated for the high priority alarm channel.
    pub alarm_tag_high: u16,
    /// The VLAN TCI negotiated for the low priority alarm channel.
    pub alarm_tag_low: u16,
}

/// One communication relationship's negotiated parameters, extracted from its
/// `IOCRBlockReq` (and, for the Output CR, resolved of a device-selected FrameID).
#[derive(Debug, Clone, PartialEq)]
pub struct IocrParams {
    /// `IOCRReference`, identifying this CR within the AR.
    pub reference: u16,
    /// The CR's `FrameID`.
    pub frame_id: u16,
    /// Total C-SDU length in bytes, as negotiated.
    pub data_length: u16,
    /// Base send-clock multiplier (send clock = `send_clock_factor * 31.25 us`).
    pub send_clock_factor: u16,
    /// How many send-clock periods make up one cycle for this CR.
    pub reduction_ratio: u16,
    /// Consumer watchdog window, in cycles.
    pub watchdog_factor: u16,
    /// Cycles the consumer holds the last valid data before declaring the watchdog expired.
    pub data_hold_factor: u16,
    /// The CR's IO data objects (one per submodule carrying data in this direction).
    pub io_data: Vec<IocrObject>,
    /// The CR's IOCS-only objects.
    pub iocs: Vec<IocrObject>,
}

/// A copy of a list of objects.
fn copy_objects(v: &Vec<IocrObject>) -> (r: Vec<IocrObject>)
    ensures
        r@ == v@,
{
    let mut r: Vec<IocrObject> = Vec::new();
    let mut i: usize = 0;
    while i < v.len()
        invariant
            i <= v@.len(),
            r@ == v@.take(i as int),
        decreases v@.len() - i,
    {
        r.push(v[i]);
        i = i + 1;
        assert(r@ =~= v@.take(i as int));
    }
    assert(v@.take(i as int) =~= v@);
    r
}

impl IocrParams {
    /// Whether `self` holds what `cr` asks for, with the FrameID `frame_id` and the objects
    /// of the first API.
    pub open spec fn extracts(self, cr: IocrBlockReq, frame_id: u16) -> bool {
        &&& self.reference == cr.reference
        &&& self.frame_id == frame_id
        &&& self.data_length == cr.data_length
        &&& self.send_clock_factor == cr.send_clock_factor
        &&& self.reduction_ratio == cr.reduction_ratio
        &&& self.watchdog_factor == cr.watchdog_factor
        &&& self.data_hold_factor == cr.data_hold_factor
        &&& if cr.apis@.len() > 0 {
            self.io_data@ == cr.apis@[0].io_data@ && self.iocs@ == cr.apis@[0].iocs@
        } else {
            self.io_data@.len() == 0 && self.iocs@.len() == 0
        }
    }

    fn from_req(cr: &IocrBlockReq) -> (p: IocrParams)
        ensures
            p.extracts(*cr, cr.frame_id),
    {
        let mut io_data: Vec<IocrObject> = Vec::new();
        let mut iocs: Vec<IocrObject> = Vec::new();
        if cr.apis.len() > 0 {
            io_data = copy_objects(&cr.apis[0].io_data);
            iocs = copy_objects(&cr.apis[0].iocs);
        }
        IocrParams {
            reference: cr.reference,
            frame_id: cr.frame_id,
            data_length: cr.data_length,
            send_clock_factor: cr.send_clock_factor,
            reduction_ratio: cr.reduction_ratio,
            watchdog_factor: cr.watchdog_factor,
            data_hold_factor: cr.data_hold_factor,
            io_data,
            iocs,
        }
    }
}

/// FrameID value in an Output CR's IOCRBlockReq by which the IO controller leaves the
/// choice to the IO device, which picks one and returns it in the IOCRBlockRes.
pub const FRAME_ID_DEVICE_SELECTS: u16 = 0xFFFF;

/// Whether a FrameID lies in the RT range for cyclic IO data.
pub open spec fn is_rt_frame_id(id: u16) -> bool {
    0x8000 <= id <= 0xBBFF
}

/// The FrameID of a device-selected Output CR: the first of the range from `0x8001` that
/// is not the Input CR's.
pub open spec fn selected_frame_id(input_frame_id: u16) -> u16 {
    if input_frame_id == 0x8001 {
        0x8002
    } else {
        0x8001
    }
}

/// Pick a FrameID for a device-selected Output CR: the first value in `0x8001..=0xBBFF`
/// that differs from the Input CR's FrameID.
fn select_output_frame_id(input_frame_id: u16) -> (id: u16)
    ensures
        id == selected_frame_id(input_frame_id),
        id != input_frame_id,
        is_rt_frame_id(id),
        forall|other: u16| 0x8001 <= other < id && #[trigger] is_rt_frame_id(other) ==> other == input_frame_id,
{
    if input_frame_id == 0x8001 {
        0x8002
    } else {
        0x8001
    }
}

/// Why a data object does not fit: its submodule is unknown, or its data and the status
/// byte behind it end past the CR's data.
pub open spec fn data_object_fault(
    obj: IocrObject,
    model: DeviceModel,
    data_length: u16,
    is_output_cr: bool,
) -> Option<PnioStatus> {
    let too_small = PnioStatus::connect_reject(ConnectBlock::IocrBlock, 5);
    match model.spec_find(obj.slot, obj.subslot) {
        None => Some(too_small),
        Some(sm) => {
            let len = if is_output_cr {
                sm.output_len
            } else {
                sm.input_len
            };
            if obj.frame_offset + len + 1 > data_length {
                Some(too_small)
            } else {
                None
            }
        },
    }
}

/// Why a consumer status object does not fit: its byte ends past the CR's data.
pub open spec fn status_object_fault(obj: IocrObject, data_length: u16) -> Option<PnioStatus> {
    if obj.frame_offset + 1 > data_length {
        Some(PnioStatus::connect_reject(ConnectBlock::IocrBlock, 5))
    } else {
        None
    }
}

/// Why a CR is refused: not exactly one API, or an object that does not fit.
pub open spec fn iocr_fault(
    cr: IocrBlockReq,
    model: DeviceModel,
    is_output_cr: bool,
) -> Option<PnioStatus> {
    if cr.apis@.len() != 1 {
        Some(PnioStatus::connect_reject(ConnectBlock::IocrBlock, 15))
    } else {
        match first_fault(
            cr.apis@[0].io_data@,
            |o: IocrObject| data_object_fault(o, model, cr.data_length, is_output_cr),
        ) {
            Some(e) => Some(e),
            None => first_fault(
                cr.apis@[0].iocs@,
                |o: IocrObject| status_object_fault(o, cr.data_length),
            ),
        }
    }
}

/// Validate one IOCR's structure and DataLength against the model: exactly one API (else
/// reject `(IocrBlock, 15)`); every data object must fit `frame_offset + model_len + 1`
/// (payload plus its trailing IOPS byte) and every IOCS object `frame_offset + 1` (else
/// reject `(IocrBlock, 5)`). `model_len` is the model submodule's `input_len` for the Input
/// CR or `output_len` for the Output CR. A data object referring to a `(slot, subslot)`
/// absent from the model is rejected too.
fn check_iocr_data_length(cr: &IocrBlockReq, model: &DeviceModel, is_output_cr: bool) -> (res:
    Result<(), PnioStatus>)
    ensures
        match res {
            Ok(_) => iocr_fault(*cr, *model, is_output_cr) is None,
            Err(e) => iocr_fault(*cr, *model, is_output_cr) == Some(e),
        },
{
    if cr.apis.len() != 1 {
        return Err(PnioStatus::connect_reject(ConnectBlock::IocrBlock, 15));
    }
    let too_small = PnioStatus::connect_reject(ConnectBlock::IocrBlock, 5);
    let io_data = &cr.apis[0].io_data;
    let ghost data_fault = |o: IocrObject|
        data_object_fault(o, *model, cr.data_length, is_output_cr);
    let mut i: usize = 0;
    while i < io_data.len()
        invariant
            i <= io_data@.len(),
            cr.apis@.len() == 1,
            io_data@ == cr.apis@[0].io_data@,
            too_small == PnioStatus::connect_reject(ConnectBlock::IocrBlock, 5),
            data_fault == (|o: IocrObject|
                data_object_fault(o, *model, cr.data_length, is_output_cr)),
            first_fault(io_data@.take(i as int), data_fault) is None,
        decreases io_data@.len() - i,
    {
        let obj = io_data[i];
        proof {
            lemma_first_fault_step(io_data@, i as int, data_fault);
            if data_fault(obj) is Some {
                lemma_first_fault_prefix(io_data@, i + 1, data_fault);
            }
        }
        let model_len: u16 = match model.find(obj.slot, obj.subslot) {
            None => {
                return Err(too_small);
            },
            Some(sm) => if is_output_cr {
                sm.output_len
            } else {
                sm.input_len
            },
        };
        let end: u32 = obj.frame_offset as u32 + model_len as u32 + 1;
        if end > cr.data_length as u32 {
            return Err(too_small);
        }
        i = i + 1;
    }
    assert(io_data@.take(i as int) =~= io_data@);
    let iocs = &cr.apis[0].iocs;
    let ghost status_fault = |o: IocrObject| status_object_fault(o, cr.data_length);
    let mut k: usize = 0;
    while k < iocs.len()
        invariant
            k <= iocs@.len(),
            cr.apis@.len() == 1,
            iocs@ == cr.apis@[0].iocs@,
            too_small == PnioStatus::connect_reject(ConnectBlock::IocrBlock, 5),
            data_fault == (|o: IocrObject|
                data_object_fault(o, *model, cr.data_length, is_output_cr)),
            status_fault == (|o: IocrObject| status_object_fault(o, cr.data_length)),
            first_fault(cr.apis@[0].io_data@, data_fault) is None,
            first_fault(iocs@.take(k as int), status_fault) is None,
        decreases iocs@.len() - k,
    {
        let obj = iocs[k];
        proof {
            lemma_first_fault_step(iocs@, k as int, status_fault);
            if status_fault(obj) is Some {
                lemma_first_fault_prefix(iocs@, k + 1, status_fault);
            }
        }
        let end: u32 = obj.frame_offset as u32 + 1;
        if end > cr.data_length as u32 {
            return Err(too_small);
        }
        k = k + 1;
    }
    assert(iocs@.take(k as int) =~= iocs@);
    Ok(())
}

/// The length a descriptor declares; none declares zero.
pub open spec fn described_len(d: Option<block::DataDescription>) -> u16 {
    match d {
        Some(d) => d.data_length,
        None => 0,
    }
}

/// Why an expected submodule is refused: it is not plugged, its identity differs, or its
/// lengths do, in this order.
pub open spec fn submodule_fault(
    model: DeviceModel,
    slot: u16,
    sm: block::ExpectedSubmodule,
) -> Option<PnioStatus> {
    match model.spec_find(slot, sm.subslot) {
        None => Some(PnioStatus::connect_reject(ConnectBlock::ExpectedSubmodule, 7)),
        Some(m) => if m.submodule_ident != sm.submodule_ident {
            Some(PnioStatus::connect_reject(ConnectBlock::ExpectedSubmodule, 6))
        } else if m.input_len != described_len(sm.input) || m.output_len != described_len(
            sm.output,
        ) {
            Some(PnioStatus::connect_reject(ConnectBlock::ExpectedSubmodule, 7))
        } else {
            None
        },
    }
}

/// Why an expected slot is refused: another module is plugged there, or one of its
/// submodules is refused.
pub open spec fn expected_slot_fault(
    model: DeviceModel,
    api: block::ExpectedApiView,
) -> Option<PnioStatus> {
    let i = crate::cm::model::slot_pos(model.slots@, api.slot);
    if i < model.slots@.len() && model.slots@[i].module_ident != api.module_ident {
        Some(PnioStatus::connect_reject(ConnectBlock::ExpectedSubmodule, 4))
    } else {
        first_fault(
            api.submodules,
            |sm: block::ExpectedSubmodule| submodule_fault(model, api.slot, sm),
        )
    }
}

/// Why an expected-submodule block is refused: one of its slots is.
pub open spec fn expected_block_fault(
    model: DeviceModel,
    b: ExpectedSubmoduleBlockReq,
) -> Option<PnioStatus> {
    first_fault(b.api_views(), |api: block::ExpectedApiView| expected_slot_fault(model, api))
}

/// Check one expected slot.
fn check_expected_slot(api: &block::ExpectedApi, model: &DeviceModel) -> (res: Result<
    (),
    PnioStatus,
>)
    ensures
        match res {
            Ok(_) => expected_slot_fault(*model, api@) is None,
            Err(e) => expected_slot_fault(*model, api@) == Some(e),
        },
{
    let i: usize = find_slot(&model.slots, api.slot);
    if i < model.slots.len() && model.slots[i].module_ident != api.module_ident {
        return Err(PnioStatus::connect_reject(ConnectBlock::ExpectedSubmodule, 4));
    }
    let submodules = &api.submodules;
    let ghost fault = |sm: block::ExpectedSubmodule| submodule_fault(*model, api.slot, sm);
    let mut k: usize = 0;
    while k < submodules.len()
        invariant
            k <= submodules@.len(),
            submodules@ == api.submodules@,
            i == crate::cm::model::slot_pos(model.slots@, api.slot),
            i < model.slots@.len() ==> model.slots@[i as int].module_ident == api.module_ident,
            fault == (|sm: block::ExpectedSubmodule| submodule_fault(*model, api.slot, sm)),
            first_fault(submodules@.take(k as int), fault) is None,
        decreases submodules@.len() - k,
    {
        let sm = submodules[k];
        proof {
            lemma_first_fault_step(submodules@, k as int, fault);
            if fault(sm) is Some {
                lemma_first_fault_prefix(submodules@, k + 1, fault);
            }
        }
        let m = match model.find(api.slot, sm.subslot) {
            Some(m) => m,
            None => {
                return Err(PnioStatus::connect_reject(ConnectBlock::ExpectedSubmodule, 7));
            },
        };
        if m.submodule_ident != sm.submodule_ident {
            return Err(PnioStatus::connect_reject(ConnectBlock::ExpectedSubmodule, 6));
        }
        let input_len: u16 = match sm.input {
            Some(d) => d.data_length,
            None => 0,
        };
        let output_len: u16 = match sm.output {
            Some(d) => d.data_length,
            None => 0,
        };
        if m.input_len != input_len || m.output_len != output_len {
            return Err(PnioStatus::connect_reject(ConnectBlock::ExpectedSubmodule, 7));
        }
        k = k + 1;
    }
    assert(submodules@.take(k as int) =~= submodules@);
    Ok(())
}

/// Check one expected-submodule block.
fn check_expected_block(b: &ExpectedSubmoduleBlockReq, model: &DeviceModel) -> (res: Result<
    (),
    PnioStatus,
>)
    ensures
        match res {
            Ok(_) => expected_block_fault(*model, *b) is None,
            Err(e) => expected_block_fault(*model, *b) == Some(e),
        },
{
    let ghost fault = |api: block::ExpectedApiView| expected_slot_fault(*model, api);
    let ghost views = b.api_views();
    let mut i: usize = 0;
    while i < b.apis.len()
        invariant
            i <= b.apis@.len(),
            views == b.api_views(),
            fault == (|api: block::ExpectedApiView| expected_slot_fault(*model, api)),
            first_fault(views.take(i as int), fault) is None,
        decreases b.apis@.len() - i,
    {
        proof {
            lemma_first_fault_step(views, i as int, fault);
            if fault(views[i as int]) is Some {
                lemma_first_fault_prefix(views, i + 1, fault);
            }
        }
        check_expected_slot(&b.apis[i], model)?;
        i = i + 1;
    }
    assert(views.take(i as int) =~= views);
    Ok(())
}

/// The index of the first CR of type `t`, or the number of CRs if there is none.
pub open spec fn iocr_pos(iocrs: Seq<IocrBlockReq>, t: u16) -> int
    decreases iocrs.len(),
{
    if iocrs.len() == 0 {
        0
    } else if iocrs[0].iocr_type == t {
        0
    } else {
        1 + iocr_pos(iocrs.skip(1), t)
    }
}

/// The first CR of a type is where no earlier one has it.
proof fn lemma_iocr_pos(iocrs: Seq<IocrBlockReq>, t: u16, i: int)
    requires
        0 <= i <= iocrs.len(),
        i < iocrs.len() ==> iocrs[i].iocr_type == t,
        forall|j: int| 0 <= j < i ==> (#[trigger] iocrs[j]).iocr_type != t,
    ensures
        iocr_pos(iocrs, t) == i,
    decreases iocrs.len(),
{
    if iocrs.len() > 0 && i > 0 {
        assert(iocrs[0].iocr_type != t);
        lemma_iocr_pos(iocrs.skip(1), t, i - 1);
    }
}

/// The index of the first CR of type `t`, or the number of CRs if there is none.
fn find_iocr(iocrs: &Vec<IocrBlockReq>, t: u16) -> (i: usize)
    ensures
        i == iocr_pos(iocrs@, t),
        i <= iocrs@.len(),
{
    let mut i: usize = 0;
    while i < iocrs.len()
        invariant
            i <= iocrs@.len(),
            forall|j: int| 0 <= j < i ==> (#[trigger] iocrs@[j]).iocr_type != t,
        decreases iocrs@.len() - i,
    {
        if iocrs[i].iocr_type == t {
            proof {
                lemma_iocr_pos(iocrs@, t, i as int);
            }
            return i;
        }
        i = i + 1;
    }
    proof {
        lemma_iocr_pos(iocrs@, t, i as int);
    }
    i
}

/// Why a Connect request is refused against `model`, if it is: the first of the checks on
/// the AR block, the CRs' number, types and FrameIDs, the expected modules and submodules,
/// the CRs' lengths and the alarm CR's type that fails, in this order.
pub open spec fn validate_fault(req: ConnectReq, model: DeviceModel) -> Option<PnioStatus> {
    let iocrs = req.iocrs@;
    let i = iocr_pos(iocrs, 1);
    let o = iocr_pos(iocrs, 2);
    let expected = first_fault(
        req.expected@,
        |b: ExpectedSubmoduleBlockReq| expected_block_fault(model, b),
    );
    if req.ar.ar_type != 1 {
        Some(PnioStatus::connect_reject(ConnectBlock::ArBlock, 1))
    } else if req.ar.ar_uuid == Uuid::nil() {
        Some(PnioStatus::connect_reject(ConnectBlock::ArBlock, 2))
    } else if iocrs.len() != 2 || i == iocrs.len() || o == iocrs.len() {
        Some(PnioStatus::connect_reject(ConnectBlock::IocrBlock, 1))
    } else if !is_rt_frame_id(iocrs[i].frame_id) {
        Some(PnioStatus::connect_reject(ConnectBlock::IocrBlock, 6))
    } else if !is_rt_frame_id(iocrs[o].frame_id) && iocrs[o].frame_id != FRAME_ID_DEVICE_SELECTS {
        Some(PnioStatus::connect_reject(ConnectBlock::IocrBlock, 6))
    } else if expected is Some {
        expected
    } else if iocr_fault(iocrs[i], model, false) is Some {
        iocr_fault(iocrs[i], model, false)
    } else if iocr_fault(iocrs[o], model, true) is Some {
        iocr_fault(iocrs[o], model, true)
    } else if req.alarm_cr.alarm_cr_type != 1 {
        Some(PnioStatus::connect_reject(ConnectBlock::AlarmCr, 1))
    } else {
        None
    }
}

impl ArParams {
    /// Whether `self` holds what `req` asks for and `model` answers.
    pub open spec fn extracts(self, req: ConnectReq, model: DeviceModel) -> bool {
        let input = req.iocrs@[iocr_pos(req.iocrs@, 1)];
        let output = req.iocrs@[iocr_pos(req.iocrs@, 2)];
        let output_id = if output.frame_id == FRAME_ID_DEVICE_SELECTS {
            selected_frame_id(input.frame_id)
        } else {
            output.frame_id
        };
        &&& self.ar_uuid == req.ar.ar_uuid
        &&& self.session_key == req.ar.session_key
        &&& self.initiator_mac == req.ar.initiator_mac
        &&& self.initiator_object_uuid == req.ar.initiator_object_uuid
        &&& self.activity_timeout_factor == req.ar.activity_timeout_factor
        &&& self.input_cr.extracts(input, input.frame_id)
        &&& self.output_cr.extracts(output, output_id)
        &&& self.alarm_ref_remote == req.alarm_cr.local_alarm_reference
        &&& self.max_alarm_data_length == model.max_alarm_data_length
        &&& self.max_alarm_data_length_remote == req.alarm_cr.max_alarm_data_length
        &&& self.rta_timeout_factor == req.alarm_cr.rta_timeout_factor
        &&& self.rta_retries == req.alarm_cr.rta_retries
        &&& self.alarm_ref_local == 0
        &&& self.alarm_tag_high == req.alarm_cr.tag_header_high
        &&& self.alarm_tag_low == req.alarm_cr.tag_header_low
    }
}

/// Validate a Connect request against `model`, extracting the AR parameters on success.
pub fn validate(req: &ConnectReq, model: &DeviceModel) -> (res: Result<ArParams, PnioStatus>)
    ensures
        match res {
            Ok(p) => validate_fault(*req, *model) is None && p.extracts(*req, *model),
            Err(e) => validate_fault(*req, *model) == Some(e),
        },
{
    if req.ar.ar_type != 1 {
        return Err(PnioStatus::connect_reject(ConnectBlock::ArBlock, 1));
    }
    if req.ar.ar_uuid == Uuid::nil() {
        return Err(PnioStatus::connect_reject(ConnectBlock::ArBlock, 2));
    }
    let input_pos: usize = find_iocr(&req.iocrs, 1);
    let output_pos: usize = find_iocr(&req.iocrs, 2);
    if req.iocrs.len() != 2 || input_pos == req.iocrs.len() || output_pos == req.iocrs.len() {
        return Err(PnioStatus::connect_reject(ConnectBlock::IocrBlock, 1));
    }
    let input = &req.iocrs[input_pos];
    let output = &req.iocrs[output_pos];
    if !(0x8000 <= input.frame_id && input.frame_id <= 0xBBFF) {
        return Err(PnioStatus::connect_reject(ConnectBlock::IocrBlock, 6));
    }
    if !(0x8000 <= output.frame_id && output.frame_id <= 0xBBFF) && output.frame_id
        != FRAME_ID_DEVICE_SELECTS {
        return Err(PnioStatus::connect_reject(ConnectBlock::IocrBlock, 6));
    }
    // Before the lengths: an identity or size mismatch against the model is a more specific
    // diagnosis than the data-length guard's generic reject for the same missing lookup.
    let ghost fault = |b: ExpectedSubmoduleBlockReq| expected_block_fault(*model, b);
    let mut i: usize = 0;
    while i < req.expected.len()
        invariant
            i <= req.expected@.len(),
            req.ar.ar_type == 1,
            req.ar.ar_uuid != Uuid::nil(),
            req.iocrs@.len() == 2,
            input_pos == iocr_pos(req.iocrs@, 1) < 2,
            output_pos == iocr_pos(req.iocrs@, 2) < 2,
            is_rt_frame_id(req.iocrs@[input_pos as int].frame_id),
            is_rt_frame_id(req.iocrs@[output_pos as int].frame_id)
                || req.iocrs@[output_pos as int].frame_id == FRAME_ID_DEVICE_SELECTS,
            fault == (|b: ExpectedSubmoduleBlockReq| expected_block_fault(*model, b)),
            first_fault(req.expected@.take(i as int), fault) is None,
        decreases req.expected@.len() - i,
    {
        proof {
            lemma_first_fault_step(req.expected@, i as int, fault);
            if fault(req.expected@[i as int]) is Some {
                lemma_first_fault_prefix(req.expected@, i + 1, fault);
            }
        }
        check_expected_block(&req.expected[i], model)?;
        i = i + 1;
    }
    assert(req.expected@.take(i as int) =~= req.expected@);
    check_iocr_data_length(input, model, false)?;
    check_iocr_data_length(output, model, true)?;
    if req.alarm_cr.alarm_cr_type != 1 {
        return Err(PnioStatus::connect_reject(ConnectBlock::AlarmCr, 1));
    }
    let mut output_cr = IocrParams::from_req(output);
    if output.frame_id == FRAME_ID_DEVICE_SELECTS {
        output_cr.frame_id = select_output_frame_id(input.frame_id);
    }
    Ok(
        ArParams {
            ar_uuid: req.ar.ar_uuid,
            session_key: req.ar.session_key,
            initiator_mac: req.ar.initiator_mac,
            initiator_object_uuid: req.ar.initiator_object_uuid,
            activity_timeout_factor: req.ar.activity_timeout_factor,
            input_cr: IocrParams::from_req(input),
            output_cr,
            alarm_ref_remote: req.alarm_cr.local_alarm_reference,
            max_alarm_data_length: model.max_alarm_data_length,
            max_alarm_data_length_remote: req.alarm_cr.max_alarm_data_length,
            rta_timeout_factor: req.alarm_cr.rta_timeout_factor,
            rta_retries: req.alarm_cr.rta_retries,
            alarm_ref_local: 0,
            alarm_tag_high: req.alarm_cr.tag_header_high,
            alarm_tag_low: req.alarm_cr.tag_header_low,
        },
    )
}

// ---------------------------------------------------------------------------------
// build_connect_res: the Connect response's PNIO blocks (no RPC header/NDR).
// ---------------------------------------------------------------------------------

/// A whole block: its header, then its body.
pub open spec fn block_bytes(block_type: u16, body: Seq<u8>) -> Seq<u8> {
    block::header_bytes(block_type, body.len() as int) + body
}

/// Body of the ARBlockRes.
pub open spec fn ar_res_body(params: ArParams, model: DeviceModel) -> Seq<u8> {
    bytes::be16_bytes(1) + params.ar_uuid.spec_bytes(Drep::big()) + bytes::be16_bytes(
        params.session_key,
    ) + model.mac.0@ + bytes::be16_bytes(0x8892)
}

/// Body of an IOCRBlockRes.
pub open spec fn iocr_res_body(iocr_type: u16, cr: IocrParams) -> Seq<u8> {
    bytes::be16_bytes(iocr_type) + bytes::be16_bytes(cr.reference) + bytes::be16_bytes(cr.frame_id)
}

/// Body of the AlarmCRBlockRes.
pub open spec fn alarm_cr_res_body(max_alarm_data_length: u16) -> Seq<u8> {
    bytes::be16_bytes(1) + bytes::be16_bytes(0) + bytes::be16_bytes(max_alarm_data_length)
}

/// How many zero bytes follow a name of `name_len` bytes so that the whole ARServerBlockRes
/// is a multiple of four bytes long.
pub open spec fn name_padding(name_len: int) -> int {
    (4 - (8 + name_len) % 4) % 4
}

/// Body of the ARServerBlockRes: the name's length, the name and the padding.
pub open spec fn ar_server_res_body(name: Seq<u8>) -> Seq<u8> {
    bytes::be16_bytes(name.len() as u16) + name + bytes::repeated(
        0,
        name_padding(name.len() as int) as nat,
    )
}

/// Whether a station name fits the 16-bit length fields of an ARServerBlockRes.
pub open spec fn name_fits(name: Seq<u8>) -> bool {
    2 + name.len() + name_padding(name.len() as int) + 2 <= u16::MAX
}

/// The Connect response: ARBlockRes, the Input CR's and the Output CR's IOCRBlockRes,
/// AlarmCRBlockRes, ARServerBlockRes.
pub open spec fn connect_res_bytes(params: ArParams, model: DeviceModel) -> Seq<u8> {
    block_bytes(ty::AR_BLOCK_RES, ar_res_body(params, model)) + block_bytes(
        ty::IOCR_BLOCK_RES,
        iocr_res_body(1, params.input_cr),
    ) + block_bytes(ty::IOCR_BLOCK_RES, iocr_res_body(2, params.output_cr)) + block_bytes(
        ty::ALARM_CR_BLOCK_RES,
        alarm_cr_res_body(model.max_alarm_data_length),
    ) + block_bytes(
        ty::AR_SERVER_BLOCK_RES,
        ar_server_res_body(utf8::encode_utf8(model.station_name@)),
    )
}

/// Append a whole block.
fn write_block(out: &mut Vec<u8>, block_type: u16, body: &Vec<u8>)
    requires
        body@.len() + 2 <= u16::MAX,
    ensures
        final(out)@ == old(out)@ + block_bytes(block_type, body@),
{
    BlockHeader::write(out, block_type, body.len() as u16);
    bytes::put_all(out, body.as_slice());
    assert(out@ =~= old(out)@ + block_bytes(block_type, body@));
}

/// Build the Connect response's PNIO blocks: ARBlockRes, IOCRBlockRes x2 (input then
/// output), AlarmCRBlockRes, ARServerBlockRes.
pub fn build_connect_res(params: &ArParams, model: &DeviceModel) -> (out: Vec<u8>)
    requires
        name_fits(utf8::encode_utf8(model.station_name@)),
    ensures
        out@ == connect_res_bytes(*params, *model),
{
    let mut out: Vec<u8> = Vec::new();
    write_ar_block_res(&mut out, params, model);
    write_iocr_block_res(&mut out, 1, &params.input_cr);
    write_iocr_block_res(&mut out, 2, &params.output_cr);
    write_alarm_cr_block_res(&mut out, model.max_alarm_data_length);
    write_ar_server_block_res(&mut out, model.station_name.as_str());
    assert(Seq::<u8>::empty() + block_bytes(ty::AR_BLOCK_RES, ar_res_body(*params, *model))
        =~= block_bytes(ty::AR_BLOCK_RES, ar_res_body(*params, *model)));
    out
}

fn write_ar_block_res(out: &mut Vec<u8>, params: &ArParams, model: &DeviceModel)
    ensures
        final(out)@ == old(out)@ + block_bytes(ty::AR_BLOCK_RES, ar_res_body(*params, *model)),
{
    let mut body: Vec<u8> = Vec::with_capacity(28);
    bytes::put_be16(&mut body, 1);
    params.ar_uuid.write(&mut body, Drep::big());
    bytes::put_be16(&mut body, params.session_key);
    crate::eth::put_mac(&mut body, model.mac);
    bytes::put_be16(&mut body, 0x8892);
    assert(body@ =~= ar_res_body(*params, *model));
    write_block(out, ty::AR_BLOCK_RES, &body);
}

fn write_iocr_block_res(out: &mut Vec<u8>, iocr_type: u16, cr: &IocrParams)
    ensures
        final(out)@ == old(out)@ + block_bytes(ty::IOCR_BLOCK_RES, iocr_res_body(iocr_type, *cr)),
{
    let mut body: Vec<u8> = Vec::with_capacity(6);
    bytes::put_be16(&mut body, iocr_type);
    bytes::put_be16(&mut body, cr.reference);
    bytes::put_be16(&mut body, cr.frame_id);
    assert(body@ =~= iocr_res_body(iocr_type, *cr));
    write_block(out, ty::IOCR_BLOCK_RES, &body);
}

fn write_alarm_cr_block_res(out: &mut Vec<u8>, max_alarm_data_length: u16)
    ensures
        final(out)@ == old(out)@ + block_bytes(
            ty::ALARM_CR_BLOCK_RES,
            alarm_cr_res_body(max_alarm_data_length),
        ),
{
    let mut body: Vec<u8> = Vec::with_capacity(6);
    bytes::put_be16(&mut body, 1);
    bytes::put_be16(&mut body, 0);
    bytes::put_be16(&mut body, max_alarm_data_length);
    assert(body@ =~= alarm_cr_res_body(max_alarm_data_length));
    write_block(out, ty::ALARM_CR_BLOCK_RES, &body);
}

fn write_ar_server_block_res(out: &mut Vec<u8>, station_name: &str)
    requires
        name_fits(utf8::encode_utf8(station_name@)),
    ensures
        final(out)@ == old(out)@ + block_bytes(
            ty::AR_SERVER_BLOCK_RES,
            ar_server_res_body(utf8::encode_utf8(station_name@)),
        ),
{
    let name = station_name.as_bytes();
    let name_len: usize = name.len();
    let mut body: Vec<u8> = Vec::with_capacity(2 + name_len);
    bytes::put_be16(&mut body, name_len as u16);
    bytes::put_all(&mut body, name);
    let total: usize = BlockHeader::LEN + 2 + name_len;
    let pad: usize = (4 - total % 4) % 4;
    bytes::put_repeated(&mut body, 0, pad);
    assert(body@ =~= ar_server_res_body(name@));
    write_block(out, ty::AR_SERVER_BLOCK_RES, &body);
}

// ---------------------------------------------------------------------------------
// Laws
// ---------------------------------------------------------------------------------

/// Without a first fault, no item has one.
pub proof fn lemma_no_first_fault<T, E>(s: Seq<T>, fault: spec_fn(T) -> Option<E>)
    requires
        first_fault(s, fault) is None,
    ensures
        forall|i: int| 0 <= i < s.len() ==> fault(#[trigger] s[i]) is None,
    decreases s.len(),
{
    if s.len() > 0 {
        lemma_no_first_fault(s.drop_last(), fault);
        assert forall|i: int| 0 <= i < s.len() implies fault(#[trigger] s[i]) is None by {
            if i < s.len() - 1 {
                assert(s.drop_last()[i] == s[i]);
            }
        }
    }
}

/// An accepted request's FrameIDs lie in the RT range, and a FrameID that the device picks
/// for the Output CR is never the Input CR's.
pub proof fn accepted_frame_ids(req: ConnectReq, model: DeviceModel, params: ArParams)
    requires
        validate_fault(req, model) is None,
        params.extracts(req, model),
    ensures
        is_rt_frame_id(params.input_cr.frame_id),
        is_rt_frame_id(params.output_cr.frame_id),
        req.iocrs@[iocr_pos(req.iocrs@, 2)].frame_id == FRAME_ID_DEVICE_SELECTS
            ==> params.output_cr.frame_id != params.input_cr.frame_id,
{
}

/// Whether a data object names a plugged submodule and fits, status byte included.
pub open spec fn data_object_fits(
    obj: IocrObject,
    model: DeviceModel,
    data_length: u16,
    is_output_cr: bool,
) -> bool {
    match model.spec_find(obj.slot, obj.subslot) {
        None => false,
        Some(sm) => obj.frame_offset + (if is_output_cr {
            sm.output_len
        } else {
            sm.input_len
        }) + 1 <= data_length,
    }
}

/// In an accepted request every data object names a plugged submodule and, like every
/// consumer status byte, lies inside its CR's data.
pub proof fn accepted_objects_fit(req: ConnectReq, model: DeviceModel, params: ArParams)
    requires
        validate_fault(req, model) is None,
        params.extracts(req, model),
    ensures
        forall|k: int|
            0 <= k < params.input_cr.io_data@.len() ==> data_object_fits(
                #[trigger] params.input_cr.io_data@[k],
                model,
                params.input_cr.data_length,
                false,
            ),
        forall|k: int|
            0 <= k < params.output_cr.io_data@.len() ==> data_object_fits(
                #[trigger] params.output_cr.io_data@[k],
                model,
                params.output_cr.data_length,
                true,
            ),
        forall|k: int|
            0 <= k < params.input_cr.iocs@.len() ==> (
            #[trigger] params.input_cr.iocs@[k]).frame_offset < params.input_cr.data_length,
        forall|k: int|
            0 <= k < params.output_cr.iocs@.len() ==> (
            #[trigger] params.output_cr.iocs@[k]).frame_offset < params.output_cr.data_length,
{
    lemma_iocr_objects_fit(req.iocrs@[iocr_pos(req.iocrs@, 1)], model, false);
    lemma_iocr_objects_fit(req.iocrs@[iocr_pos(req.iocrs@, 2)], model, true);
}

proof fn lemma_iocr_objects_fit(cr: IocrBlockReq, model: DeviceModel, is_output_cr: bool)
    requires
        iocr_fault(cr, model, is_output_cr) is None,
    ensures
        cr.apis@.len() == 1,
        forall|k: int|
            0 <= k < cr.apis@[0].io_data@.len() ==> data_object_fits(
                #[trigger] cr.apis@[0].io_data@[k],
                model,
                cr.data_length,
                is_output_cr,
            ),
        forall|k: int|
            0 <= k < cr.apis@[0].iocs@.len() ==> (#[trigger] cr.apis@[0].iocs@[k]).frame_offset
                < cr.data_length,
{
    let data_fault = |o: IocrObject| data_object_fault(o, model, cr.data_length, is_output_cr);
    let status_fault = |o: IocrObject| status_object_fault(o, cr.data_length);
    let io_data = cr.apis@[0].io_data@;
    let iocs = cr.apis@[0].iocs@;
    lemma_no_first_fault(io_data, data_fault);
    lemma_no_first_fault(iocs, status_fault);
    assert forall|k: int| 0 <= k < io_data.len() implies data_object_fits(
        #[trigger] io_data[k],
        model,
        cr.data_length,
        is_output_cr,
    ) by {
        assert(data_fault(io_data[k]) is None);
    }
    assert forall|k: int| 0 <= k < iocs.len() implies (#[trigger] iocs[k]).frame_offset
        < cr.data_length by {
        assert(status_fault(iocs[k]) is None);
    }
}

/// The Connect response reads back as its five blocks, in order.
#[verifier::spinoff_prover]
pub proof fn connect_response_reads_back(params: ArParams, model: DeviceModel)
    requires
        name_fits(utf8::encode_utf8(model.station_name@)),
    ensures
        ({
            let ar = ar_res_body(params, model);
            let input = iocr_res_body(1, params.input_cr);
            let output = iocr_res_body(2, params.output_cr);
            let alarm = alarm_cr_res_body(model.max_alarm_data_length);
            let server = ar_server_res_body(utf8::encode_utf8(model.station_name@));
            &&& BlockHeader::spec_read_all(connect_res_bytes(params, model)) == Ok::<
                _,
                BlockError,
            >(
                seq![
                    (block::header_of(ty::AR_BLOCK_RES, ar.len() as int), ar),
                    (block::header_of(ty::IOCR_BLOCK_RES, input.len() as int), input),
                    (block::header_of(ty::IOCR_BLOCK_RES, output.len() as int), output),
                    (block::header_of(ty::ALARM_CR_BLOCK_RES, alarm.len() as int), alarm),
                    (block::header_of(ty::AR_SERVER_BLOCK_RES, server.len() as int), server),
                ],
            )
            &&& (block::header_bytes(ty::AR_SERVER_BLOCK_RES, server.len() as int).len()
                + server.len()) % 4 == 0
        }),
{
    let ar = ar_res_body(params, model);
    let input = iocr_res_body(1, params.input_cr);
    let output = iocr_res_body(2, params.output_cr);
    let alarm = alarm_cr_res_body(model.max_alarm_data_length);
    let server = ar_server_res_body(utf8::encode_utf8(model.station_name@));
    assert(ar.len() == 28);
    assert(server.len() + 2 <= u16::MAX);
    assert((6 + server.len()) % 4 == 0);
    assert(block::header_bytes(ty::AR_SERVER_BLOCK_RES, server.len() as int).len() == 6);
    lemma_five_blocks(
        seq![
            (ty::AR_BLOCK_RES, ar),
            (ty::IOCR_BLOCK_RES, input),
            (ty::IOCR_BLOCK_RES, output),
            (ty::ALARM_CR_BLOCK_RES, alarm),
            (ty::AR_SERVER_BLOCK_RES, server),
        ],
    );
}

/// A block read back: its header and its body.
pub open spec fn block_of(b: (u16, Seq<u8>)) -> (BlockHeader, Seq<u8>) {
    (block::header_of(b.0, b.1.len() as int), b.1)
}

proof fn lemma_five_blocks(l: Seq<(u16, Seq<u8>)>)
    requires
        l.len() == 5,
        forall|i: int| 0 <= i < 5 ==> (#[trigger] l[i]).1.len() + 2 <= u16::MAX,
    ensures
        BlockHeader::spec_read_all(
            block_bytes(l[0].0, l[0].1) + block_bytes(l[1].0, l[1].1) + block_bytes(l[2].0, l[2].1)
                + block_bytes(l[3].0, l[3].1) + block_bytes(l[4].0, l[4].1),
        ) == Ok::<_, BlockError>(
            seq![block_of(l[0]), block_of(l[1]), block_of(l[2]), block_of(l[3]), block_of(l[4])],
        ),
{
    let none = Seq::<u8>::empty();
    let (p1, p2, p3, p4, p5) = (
        block_bytes(l[0].0, l[0].1),
        block_bytes(l[1].0, l[1].1),
        block_bytes(l[2].0, l[2].1),
        block_bytes(l[3].0, l[3].1),
        block_bytes(l[4].0, l[4].1),
    );
    let b5 = p5 + none;
    let b4 = p4 + b5;
    let b3 = p3 + b4;
    let b2 = p2 + b3;
    let b1 = p1 + b2;
    assert(p1 + p2 + p3 + p4 + p5 =~= b1);
    block::read_all_reads_the_first_block(l[4].0, l[4].1, none);
    block::read_all_reads_the_first_block(l[3].0, l[3].1, b5);
    block::read_all_reads_the_first_block(l[2].0, l[2].1, b4);
    block::read_all_reads_the_first_block(l[1].0, l[1].1, b3);
    block::read_all_reads_the_first_block(l[0].0, l[0].1, b2);
    assert(BlockHeader::spec_read_all(b1)->Ok_0 =~= seq![
        block_of(l[0]),
        block_of(l[1]),
        block_of(l[2]),
        block_of(l[3]),
        block_of(l[4]),
    ]);
}

/// Where every item before `k` has no fault and `k` has one, it is the first.
proof fn lemma_first_fault_at<T, E>(s: Seq<T>, fault: spec_fn(T) -> Option<E>, k: int)
    requires
        0 <= k < s.len(),
        fault(s[k]) is Some,
        forall|j: int| 0 <= j < k ==> fault(#[trigger] s[j]) is None,
    ensures
        first_fault(s, fault) == fault(s[k]),
{
    lemma_all_sound(s.take(k), fault);
    lemma_first_fault_step(s, k, fault);
    lemma_first_fault_prefix(s, k + 1, fault);
}

/// Items without a fault have no first one.
proof fn lemma_all_sound<T, E>(s: Seq<T>, fault: spec_fn(T) -> Option<E>)
    requires
        forall|i: int| 0 <= i < s.len() ==> fault(#[trigger] s[i]) is None,
    ensures
        first_fault(s, fault) is None,
    decreases s.len(),
{
    if s.len() > 0 {
        assert forall|i: int| 0 <= i < s.drop_last().len() implies fault(
            #[trigger] s.drop_last()[i],
        ) is None by {
            assert(s.drop_last()[i] == s[i]);
        }
        lemma_all_sound(s.drop_last(), fault);
        assert(s.last() == s[s.len() - 1]);
    }
}

/// Whether an expected submodule is the one that is plugged: of its identity, and of its length
/// in either direction, which is zero where no descriptor declares one.
pub open spec fn is_plugged(model: DeviceModel, slot: u16, sm: block::ExpectedSubmodule) -> bool {
    &&& model.spec_find(slot, sm.subslot) matches Some(m)
    &&& m.submodule_ident == sm.submodule_ident
    &&& m.input_len == (if sm.input is Some {
        sm.input->0.data_length
    } else {
        0
    })
    &&& m.output_len == (if sm.output is Some {
        sm.output->0.data_length
    } else {
        0
    })
}

/// Whether a slot of the model, the first of its number, holds another module.
pub open spec fn holds_another_module(model: DeviceModel, slot: u16, module_ident: u32) -> bool {
    exists|i: int|
        {
            &&& 0 <= i < model.slots@.len()
            &&& (#[trigger] model.slots@[i]).slot == slot
            &&& model.slots@[i].module_ident != module_ident
            &&& forall|k: int| 0 <= k < i ==> (#[trigger] model.slots@[k]).slot != slot
        }
}

/// Whether an expected slot is the one that is plugged.
pub open spec fn is_slot_plugged(model: DeviceModel, api: block::ExpectedApiView) -> bool {
    &&& !holds_another_module(model, api.slot, api.module_ident)
    &&& forall|s: int|
        0 <= s < api.submodules.len() ==> is_plugged(model, api.slot, #[trigger] api.submodules[s])
}

proof fn lemma_slot_plugged(model: DeviceModel, api: block::ExpectedApiView)
    ensures
        expected_slot_fault(model, api) is None <==> is_slot_plugged(model, api),
        holds_another_module(model, api.slot, api.module_ident) ==> expected_slot_fault(
            model,
            api,
        ) == Some(PnioStatus(0xDB81_0304)),
{
    let fault = |sm: block::ExpectedSubmodule| submodule_fault(model, api.slot, sm);
    let i = crate::cm::model::slot_pos(model.slots@, api.slot);
    crate::cm::model::lemma_slot_found(model.slots@, api.slot);
    if holds_another_module(model, api.slot, api.module_ident) {
        let k = choose|k: int|
            {
                &&& 0 <= k < model.slots@.len()
                &&& (#[trigger] model.slots@[k]).slot == api.slot
                &&& model.slots@[k].module_ident != api.module_ident
                &&& forall|j: int| 0 <= j < k ==> (#[trigger] model.slots@[j]).slot != api.slot
            };
        crate::cm::model::lemma_slot_pos(model.slots@, api.slot, k);
    } else if i < model.slots@.len() {
        assert(model.slots@[i].slot == api.slot);
    }
    if expected_slot_fault(model, api) is None {
        lemma_no_first_fault(api.submodules, fault);
        assert forall|s: int| 0 <= s < api.submodules.len() implies is_plugged(
            model,
            api.slot,
            #[trigger] api.submodules[s],
        ) by {
            assert(fault(api.submodules[s]) is None);
        }
    }
    if is_slot_plugged(model, api) {
        assert forall|s: int| 0 <= s < api.submodules.len() implies fault(
            #[trigger] api.submodules[s],
        ) is None by {
            assert(is_plugged(model, api.slot, api.submodules[s]));
        }
        lemma_all_sound(api.submodules, fault);
    }
}

/// Whether every expected slot of a request is the one that is plugged.
pub open spec fn is_device_expected(req: ConnectReq, model: DeviceModel) -> bool {
    forall|b: int, a: int|
        0 <= b < req.expected@.len() && 0 <= a < req.expected@[b].apis@.len() ==> is_slot_plugged(
            model,
            (#[trigger] req.expected@[b].apis@[a])@,
        )
}

proof fn lemma_device_expected(req: ConnectReq, model: DeviceModel)
    ensures
        first_fault(
            req.expected@,
            |b: ExpectedSubmoduleBlockReq| expected_block_fault(model, b),
        ) is None <==> is_device_expected(req, model),
{
    let outer = |b: ExpectedSubmoduleBlockReq| expected_block_fault(model, b);
    let inner = |api: block::ExpectedApiView| expected_slot_fault(model, api);
    if first_fault(req.expected@, outer) is None {
        lemma_no_first_fault(req.expected@, outer);
        assert forall|b: int, a: int|
            0 <= b < req.expected@.len() && 0 <= a < req.expected@[b].apis@.len() implies
            is_slot_plugged(model, (#[trigger] req.expected@[b].apis@[a])@) by {
            let views = req.expected@[b].api_views();
            assert(outer(req.expected@[b]) is None);
            lemma_no_first_fault(views, inner);
            assert(inner(views[a]) is None);
            lemma_slot_plugged(model, views[a]);
        }
    }
    if is_device_expected(req, model) {
        assert forall|b: int| 0 <= b < req.expected@.len() implies outer(
            #[trigger] req.expected@[b],
        ) is None by {
            let views = req.expected@[b].api_views();
            assert forall|a: int| 0 <= a < views.len() implies inner(#[trigger] views[a])
                is None by {
                assert(is_slot_plugged(model, req.expected@[b].apis@[a]@));
                lemma_slot_plugged(model, views[a]);
            }
            lemma_all_sound(views, inner);
        }
        lemma_all_sound(req.expected@, outer);
    }
}

/// Whether every object of a CR fits its data: exactly one API, whose data objects name plugged
/// submodules and lie inside with the status byte behind them, and whose consumer status bytes
/// lie inside.
pub open spec fn is_cr_fitting(cr: IocrBlockReq, model: DeviceModel, is_output_cr: bool) -> bool {
    &&& cr.apis@.len() == 1
    &&& forall|k: int|
        0 <= k < cr.apis@[0].io_data@.len() ==> {
            let o = #[trigger] cr.apis@[0].io_data@[k];
            &&& model.spec_find(o.slot, o.subslot) matches Some(m)
            &&& o.frame_offset + (if is_output_cr {
                m.output_len
            } else {
                m.input_len
            }) < cr.data_length
        }
    &&& forall|k: int|
        0 <= k < cr.apis@[0].iocs@.len() ==> (#[trigger] cr.apis@[0].iocs@[k]).frame_offset
            < cr.data_length
}

proof fn lemma_cr_fitting(cr: IocrBlockReq, model: DeviceModel, is_output_cr: bool)
    ensures
        iocr_fault(cr, model, is_output_cr) is None <==> is_cr_fitting(cr, model, is_output_cr),
        iocr_fault(cr, model, is_output_cr) matches Some(e) ==> e == (if cr.apis@.len() != 1 {
            PnioStatus(0xDB81_020F)
        } else {
            PnioStatus(0xDB81_0205)
        }),
{
    let data_fault = |o: IocrObject| data_object_fault(o, model, cr.data_length, is_output_cr);
    let status_fault = |o: IocrObject| status_object_fault(o, cr.data_length);
    let (data, status) = (cr.apis@[0].io_data@, cr.apis@[0].iocs@);
    if iocr_fault(cr, model, is_output_cr) is None {
        lemma_iocr_objects_fit(cr, model, is_output_cr);
        assert forall|k: int| 0 <= k < data.len() implies {
            let o = #[trigger] cr.apis@[0].io_data@[k];
            &&& model.spec_find(o.slot, o.subslot) matches Some(m)
            &&& o.frame_offset + (if is_output_cr {
                m.output_len
            } else {
                m.input_len
            }) < cr.data_length
        } by {
            assert(data_object_fits(data[k], model, cr.data_length, is_output_cr));
        }
    }
    if is_cr_fitting(cr, model, is_output_cr) {
        assert forall|k: int| 0 <= k < data.len() implies data_fault(#[trigger] data[k])
            is None by {
            assert(data[k] == cr.apis@[0].io_data@[k]);
        }
        lemma_all_sound(data, data_fault);
        assert forall|k: int| 0 <= k < status.len() implies status_fault(#[trigger] status[k])
            is None by {
            assert(status[k] == cr.apis@[0].iocs@[k]);
        }
        lemma_all_sound(status, status_fault);
    }
    lemma_one_fault(data, data_fault, PnioStatus(0xDB81_0205));
    lemma_one_fault(status, status_fault, PnioStatus(0xDB81_0205));
}

proof fn lemma_one_fault<T, E>(s: Seq<T>, fault: spec_fn(T) -> Option<E>, e: E)
    requires
        forall|x: T| (#[trigger] fault(x)) is Some ==> fault(x) == Some(e),
    ensures
        first_fault(s, fault) is Some ==> first_fault(s, fault) == Some(e),
    decreases s.len(),
{
    if s.len() > 0 {
        lemma_one_fault(s.drop_last(), fault, e);
        assert(fault(s.last()) is Some ==> fault(s.last()) == Some(e));
    }
}

/// Whether two CRs are an Input and an Output CR that the device can serve.
pub open spec fn are_crs_served(
    input: IocrBlockReq,
    output: IocrBlockReq,
    model: DeviceModel,
) -> bool {
    &&& input.iocr_type == 1
    &&& output.iocr_type == 2
    &&& 0x8000 <= input.frame_id <= 0xBBFF
    &&& 0x8000 <= output.frame_id <= 0xBBFF || output.frame_id == 0xFFFF
    &&& is_cr_fitting(input, model, false)
    &&& is_cr_fitting(output, model, true)
}

proof fn lemma_crs(iocrs: Seq<IocrBlockReq>)
    requires
        iocrs.len() == 2,
    ensures
        iocr_pos(iocrs, 1) == (if iocrs[0].iocr_type == 1 {
            0int
        } else if iocrs[1].iocr_type == 1 {
            1
        } else {
            2
        }),
        iocr_pos(iocrs, 2) == (if iocrs[0].iocr_type == 2 {
            0int
        } else if iocrs[1].iocr_type == 2 {
            1
        } else {
            2
        }),
{
    reveal_with_fuel(iocr_pos, 3);
    assert(iocrs.skip(1)[0] == iocrs[1]);
    assert(iocrs.skip(1).skip(1).len() == 0);
}

/// A Connect request is accepted if and only if it asks for the device as it is: a plain IO AR
/// with an identity, one Input and one Output CR whose objects fit, with FrameIDs of the RT
/// range (or the choice left to the device), every expected module and submodule plugged with
/// its identity and its lengths in both directions, and an alarm CR.
pub proof fn requests_that_match_the_device_are_accepted(req: ConnectReq, model: DeviceModel)
    ensures
        validate_fault(req, model) is None <==> {
            &&& req.ar.ar_type == 1
            &&& req.ar.ar_uuid != (Uuid { data1: 0, data2: 0, data3: 0, data4: 0 })
            &&& req.iocrs@.len() == 2
            &&& are_crs_served(req.iocrs@[0], req.iocrs@[1], model) || are_crs_served(
                req.iocrs@[1],
                req.iocrs@[0],
                model,
            )
            &&& is_device_expected(req, model)
            &&& req.alarm_cr.alarm_cr_type == 1
        },
{
    lemma_device_expected(req, model);
    if req.iocrs@.len() == 2 {
        lemma_crs(req.iocrs@);
        lemma_cr_fitting(req.iocrs@[0], model, false);
        lemma_cr_fitting(req.iocrs@[0], model, true);
        lemma_cr_fitting(req.iocrs@[1], model, false);
        lemma_cr_fitting(req.iocrs@[1], model, true);
    }
}

/// In an accepted request, every submodule that is expected is plugged with the identity and
/// with the data lengths that the project has for it, in both directions, and no module that is
/// expected stands in place of another.
pub proof fn accepted_projects_match_the_device(
    req: ConnectReq,
    model: DeviceModel,
    b: int,
    a: int,
    s: int,
)
    requires
        validate_fault(req, model) is None,
        0 <= b < req.expected@.len(),
        0 <= a < req.expected@[b].apis@.len(),
        0 <= s < req.expected@[b].apis@[a].submodules@.len(),
    ensures
        ({
            let slot = req.expected@[b].apis@[a];
            let sm = slot.submodules@[s];
            &&& model.spec_find(slot.slot, sm.subslot) matches Some(m)
            &&& m.submodule_ident == sm.submodule_ident
            &&& sm.input matches Some(d) ==> m.input_len == d.data_length
            &&& sm.input is None ==> m.input_len == 0
            &&& sm.output matches Some(d) ==> m.output_len == d.data_length
            &&& sm.output is None ==> m.output_len == 0
            &&& !holds_another_module(model, slot.slot, slot.module_ident)
        }),
{
    lemma_device_expected(req, model);
    let slot = req.expected@[b].apis@[a];
    assert(is_slot_plugged(model, slot@));
    assert(is_plugged(model, slot@.slot, slot@.submodules[s]));
}

/// What is wrong with the first submodule that does not match decides the refusal of its slot:
/// one that is not plugged or has other lengths by `7`, another identity by `6`, and another
/// module, before all of its submodules, by `4`.
pub proof fn the_first_mismatch_is_reported(model: DeviceModel, api: block::ExpectedApiView, s: int)
    requires
        0 <= s < api.submodules.len(),
        !is_plugged(model, api.slot, api.submodules[s]),
        forall|k: int|
            0 <= k < s ==> is_plugged(model, api.slot, #[trigger] api.submodules[k]),
    ensures
        expected_slot_fault(model, api) == Some(
            if holds_another_module(model, api.slot, api.module_ident) {
                PnioStatus(0xDB81_0304)
            } else {
                match model.spec_find(api.slot, api.submodules[s].subslot) {
                    None => PnioStatus(0xDB81_0307),
                    Some(m) => if m.submodule_ident != api.submodules[s].submodule_ident {
                        PnioStatus(0xDB81_0306)
                    } else {
                        PnioStatus(0xDB81_0307)
                    },
                }
            },
        ),
{
    let fault = |sm: block::ExpectedSubmodule| submodule_fault(model, api.slot, sm);
    lemma_slot_plugged(model, api);
    crate::cm::model::lemma_slot_found(model.slots@, api.slot);
    assert forall|k: int| 0 <= k < s implies fault(#[trigger] api.submodules[k]) is None by {
        assert(is_plugged(model, api.slot, api.submodules[k]));
    }
    lemma_first_fault_at(api.submodules, fault, s);
}

/// Which status refuses a Connect request: the first thing that does not match, from the AR over
/// the CRs' kinds and FrameIDs, the expected modules, and the CRs' objects to the alarm CR.
pub proof fn the_first_fault_refuses(req: ConnectReq, model: DeviceModel)
    ensures
        ({
            let f = validate_fault(req, model);
            let (c, d) = (req.iocrs@[0], req.iocrs@[1]);
            let ar = req.ar.ar_type == 1;
            let named = req.ar.ar_uuid != (Uuid { data1: 0, data2: 0, data3: 0, data4: 0 });
            let kinds = req.iocrs@.len() == 2 && (c.iocr_type == 1 && d.iocr_type == 2
                || c.iocr_type == 2 && d.iocr_type == 1);
            let (input, output) = if c.iocr_type == 1 {
                (c, d)
            } else {
                (d, c)
            };
            let ids = 0x8000 <= input.frame_id <= 0xBBFF && (0x8000 <= output.frame_id <= 0xBBFF
                || output.frame_id == 0xFFFF);
            let head = ar && named && kinds && ids;
            let expected = is_device_expected(req, model);
            let fits = is_cr_fitting(input, model, false);
            &&& !ar ==> f == Some(PnioStatus(0xDB81_0101))
            &&& ar && !named ==> f == Some(PnioStatus(0xDB81_0102))
            &&& ar && named && !kinds ==> f == Some(PnioStatus(0xDB81_0201))
            &&& ar && named && kinds && !ids ==> f == Some(PnioStatus(0xDB81_0206))
            &&& head && !expected ==> f == first_fault(
                req.expected@,
                |b: ExpectedSubmoduleBlockReq| expected_block_fault(model, b),
            )
            &&& head && expected && !fits ==> f == Some(
                PnioStatus(
                    if input.apis@.len() != 1 {
                        0xDB81_020F
                    } else {
                        0xDB81_0205
                    },
                ),
            )
            &&& head && expected && fits && !is_cr_fitting(output, model, true) ==> f == Some(
                PnioStatus(
                    if output.apis@.len() != 1 {
                        0xDB81_020F
                    } else {
                        0xDB81_0205
                    },
                ),
            )
            &&& head && expected && fits && is_cr_fitting(output, model, true)
                && req.alarm_cr.alarm_cr_type != 1 ==> f == Some(PnioStatus(0xDB81_0401))
        }),
{
    lemma_device_expected(req, model);
    if req.iocrs@.len() == 2 {
        lemma_crs(req.iocrs@);
        lemma_cr_fitting(req.iocrs@[0], model, false);
        lemma_cr_fitting(req.iocrs@[0], model, true);
        lemma_cr_fitting(req.iocrs@[1], model, false);
        lemma_cr_fitting(req.iocrs@[1], model, true);
    }
}

/// Whether CR parameters are those that a CR's block asks for, but for the FrameID.
pub open spec fn are_cr_params_of(p: IocrParams, cr: IocrBlockReq) -> bool {
    &&& (p.reference, p.data_length) == (cr.reference, cr.data_length)
    &&& (p.send_clock_factor, p.reduction_ratio) == (cr.send_clock_factor, cr.reduction_ratio)
    &&& (p.watchdog_factor, p.data_hold_factor) == (cr.watchdog_factor, cr.data_hold_factor)
    &&& cr.apis@.len() > 0 ==> p.io_data@ == cr.apis@[0].io_data@ && p.iocs@ == cr.apis@[0].iocs@
}

/// The parameters of an AR are those that were asked for: of each CR by its kind, whatever the
/// order of the blocks, of the alarm CR, and of the AR itself. Only the FrameID of an Output CR
/// that leaves it to the device is chosen: the lowest from `0x8001` on that the Input CR has not.
pub proof fn parameters_are_those_asked_for(
    req: ConnectReq,
    model: DeviceModel,
    p: ArParams,
    i: int,
    o: int,
)
    requires
        validate_fault(req, model) is None,
        p.extracts(req, model),
        0 <= i < req.iocrs@.len(),
        0 <= o < req.iocrs@.len(),
        req.iocrs@[i].iocr_type == 1,
        req.iocrs@[o].iocr_type == 2,
    ensures
        ({
            let (input, output) = (req.iocrs@[i], req.iocrs@[o]);
            &&& are_cr_params_of(p.input_cr, input)
            &&& p.input_cr.frame_id == input.frame_id
            &&& are_cr_params_of(p.output_cr, output)
            &&& p.output_cr.frame_id == (if output.frame_id != 0xFFFF {
                output.frame_id
            } else if input.frame_id == 0x8001 {
                0x8002
            } else {
                0x8001
            })
        }),
        (p.ar_uuid, p.session_key) == (req.ar.ar_uuid, req.ar.session_key),
        (p.initiator_mac, p.initiator_object_uuid) == (
            req.ar.initiator_mac,
            req.ar.initiator_object_uuid,
        ),
        p.activity_timeout_factor == req.ar.activity_timeout_factor,
        (p.rta_timeout_factor, p.rta_retries) == (
            req.alarm_cr.rta_timeout_factor,
            req.alarm_cr.rta_retries,
        ),
        p.alarm_ref_remote == req.alarm_cr.local_alarm_reference,
        p.alarm_ref_local == 0,
        p.max_alarm_data_length_remote == req.alarm_cr.max_alarm_data_length,
        p.max_alarm_data_length == model.max_alarm_data_length,
        (p.alarm_tag_high, p.alarm_tag_low) == (
            req.alarm_cr.tag_header_high,
            req.alarm_cr.tag_header_low,
        ),
{
    lemma_crs(req.iocrs@);
}

/// The ARBlockRes, field by field: the AR and the device's address.
pub proof fn the_ar_answer_holds_its_fields(params: ArParams, model: DeviceModel)
    ensures
        ({
            let ar = ar_res_body(params, model);
            &&& ar.len() == 28
            &&& bytes::be16(ar, 0) == 1
            &&& Uuid::at(ar, 2, Drep::big()) == params.ar_uuid
            &&& bytes::be16(ar, 18) == params.session_key
            &&& crate::eth::mac_at(ar, 20) == model.mac
            &&& bytes::be16(ar, 26) == 0x8892
        }),
{
    let ar = ar_res_body(params, model);
    let (one, rt) = (bytes::be16_bytes(1), bytes::be16_bytes(0x8892));
    let uuid = params.ar_uuid.spec_bytes(Drep::big());
    let key = bytes::be16_bytes(params.session_key);
    let mac = model.mac.0@;
    let none = Seq::<u8>::empty();
    assert(Uuid::at(ar, 2, Drep::big()) == params.ar_uuid && uuid.len() == 16) by {
        crate::rpc::uuid::uuid_round_trip(params.ar_uuid, Drep::big(), one, key + mac + rt);
        assert(ar =~= one + uuid + (key + mac + rt));
    }
    assert(bytes::be16(ar, 18) == params.session_key) by {
        bytes::lemma_be16_round_trip(params.session_key, one + uuid, mac + rt);
        assert(ar =~= (one + uuid) + key + (mac + rt));
    }
    assert(crate::eth::mac_at(ar, 20) == model.mac) by {
        crate::eth::lemma_mac_round_trip(model.mac, one + uuid + key, rt);
        assert(ar =~= (one + uuid + key) + mac + rt);
    }
    assert(bytes::be16(ar, 0) == 1) by {
        bytes::lemma_be16_round_trip(1, none, uuid + key + mac + rt);
        assert(ar =~= none + one + (uuid + key + mac + rt));
    }
    assert(bytes::be16(ar, 26) == 0x8892) by {
        bytes::lemma_be16_round_trip(0x8892, one + uuid + key + mac, none);
        assert(ar =~= (one + uuid + key + mac) + rt + none);
    }
}

/// An IOCRBlockRes and the AlarmCRBlockRes, field by field: a CR's kind, its reference and its
/// FrameID; the alarm length.
pub proof fn the_cr_answers_hold_their_fields(t: u16, cr: IocrParams, max: u16)
    ensures
        ({
            let b = iocr_res_body(t, cr);
            &&& b.len() == 6
            &&& bytes::be16(b, 0) == t
            &&& bytes::be16(b, 2) == cr.reference
            &&& bytes::be16(b, 4) == cr.frame_id
        }),
        ({
            let b = alarm_cr_res_body(max);
            &&& b.len() == 6
            &&& bytes::be16(b, 0) == 1
            &&& bytes::be16(b, 2) == 0
            &&& bytes::be16(b, 4) == max
        }),
{
}

/// The ARServerBlockRes, field by field: the name's length, the name, and zeros up to the next
/// multiple of four bytes.
pub proof fn the_server_answer_holds_the_name(name: Seq<u8>)
    requires
        name_fits(name),
    ensures
        ({
            let server = ar_server_res_body(name);
            &&& bytes::be16(server, 0) == name.len()
            &&& server.subrange(2, 2 + name.len() as int) == name
            &&& forall|k: int| 2 + name.len() <= k < server.len() ==> #[trigger] server[k] == 0
            &&& server.len() < name.len() + 6
            &&& (server.len() + 6) % 4 == 0
        }),
{
    let server = ar_server_res_body(name);
    assert(server.subrange(2, 2 + name.len() as int) =~= name);
}

/// A Connect response has these blocks: the AR's, the Input CR's as kind 1, the Output CR's as
/// kind 2, the alarm CR's and the server's, under their types.
pub proof fn connect_answers_have_their_types(params: ArParams, model: DeviceModel)
    requires
        name_fits(utf8::encode_utf8(model.station_name@)),
    ensures
        BlockHeader::spec_read_all(connect_res_bytes(params, model)) matches Ok(blocks) && {
            &&& blocks.len() == 5
            &&& blocks[0].0.block_type == 0x8101
            &&& blocks[1].0.block_type == 0x8102
            &&& blocks[2].0.block_type == 0x8102
            &&& blocks[3].0.block_type == 0x8103
            &&& blocks[4].0.block_type == 0x8106
            &&& blocks[0].1 == ar_res_body(params, model)
            &&& bytes::be16(blocks[1].1, 0) == 1
            &&& bytes::be16(blocks[1].1, 2) == params.input_cr.reference
            &&& bytes::be16(blocks[1].1, 4) == params.input_cr.frame_id
            &&& bytes::be16(blocks[2].1, 0) == 2
            &&& bytes::be16(blocks[2].1, 2) == params.output_cr.reference
            &&& bytes::be16(blocks[2].1, 4) == params.output_cr.frame_id
            &&& bytes::be16(blocks[3].1, 4) == model.max_alarm_data_length
            &&& blocks[4].1 == ar_server_res_body(utf8::encode_utf8(model.station_name@))
        },
{
    connect_response_reads_back(params, model);
    the_cr_answers_hold_their_fields(1, params.input_cr, model.max_alarm_data_length);
    the_cr_answers_hold_their_fields(2, params.output_cr, model.max_alarm_data_length);
}

} // verus!
