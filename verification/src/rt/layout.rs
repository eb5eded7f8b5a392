//! C-SDU layout: turns the AR parameters negotiated at Connect (`ArParams`) plus the
//! `DeviceModel` into flat serialization tables for the cyclic engine and the I/O image,
//! one table per communication relationship (input, output), plus a per-submodule `Cell`
//! index the I/O image walks in model order.

use vstd::prelude::*;

use crate::cm::block::IocrObject;
use crate::cm::model::SlotModel;
use crate::cm::{ArParams, DeviceModel, IocrParams, SubmoduleModel};
use crate::rt::frame::CYCLE_UNIT;

verus! {

/// One IO data object inside a CR's C-SDU: payload bytes plus its trailing IOPS byte.
#[derive(Debug, Clone, Copy, PartialEq, Eq, Structural)]
pub struct IoObject {
    pub slot: u16,
    pub subslot: u16,
    pub data_off: usize,
    pub data_len: usize,
    pub iops_off: usize,
}

/// One IOCS object inside a CR's C-SDU (a submodule with no data in this direction, or an
/// extra consumer-status point such as the DAP's slot/subslot entries).
#[derive(Debug, Clone, Copy, PartialEq, Eq, Structural)]
pub struct CsObject {
    pub slot: u16,
    pub subslot: u16,
    pub iocs_off: usize,
}

/// The flat serialization table for one communication relationship (input or output).
#[derive(Debug, Clone, PartialEq, Eq)]
pub struct CrLayout {
    pub frame_id: u16,
    pub data_length: usize,
    pub cycle_step: u16,
    /// Consumer watchdog window in nanoseconds.
    pub watchdog: u64,
    pub objects: Vec<IoObject>,
    pub iocs: Vec<CsObject>,
}

/// One model submodule's offsets in each direction's CR, if it carries data there.
#[derive(Debug, Clone, Copy, PartialEq, Eq, Structural)]
pub struct Cell {
    pub slot: u16,
    pub subslot: u16,
    pub input_len: usize,
    pub output_len: usize,
    /// `data_off` in the input CR, if this submodule has an IO data object there.
    pub input_off: Option<usize>,
    /// `data_off` in the output CR, if this submodule has an IO data object there.
    pub output_off: Option<usize>,
}

/// The C-SDU plan for both CRs of an AR, plus the per-submodule `Cell` index.
#[derive(Debug, Clone, PartialEq, Eq)]
pub struct Layout {
    pub input_cr: CrLayout,
    pub output_cr: CrLayout,
    pub cells: Vec<Cell>,
}

/// Errors building a `Layout` from an AR's parameters against a `DeviceModel`.
#[derive(Debug, Clone, Copy, PartialEq, Eq, Structural)]
pub enum LayoutError {
    /// An IO data object names a submodule the model does not have.
    UnknownSubmodule { slot: u16, subslot: u16 },
    /// An object ends past the CR's data.
    OutOfBounds { slot: u16, subslot: u16, end: usize, data_length: usize },
    /// An object shares a byte with an earlier one.
    Overlap { slot: u16, subslot: u16 },
}

/// Which side of the AR a CR carries data for: which model length (`input_len` vs
/// `output_len`) its IO data objects use.
#[derive(Debug, Clone, Copy, PartialEq, Eq, Structural)]
pub enum Dir {
    Input,
    Output,
}

/// The length of a submodule's data in the direction `dir`.
pub open spec fn data_len(sm: SubmoduleModel, dir: Dir) -> u16 {
    match dir {
        Dir::Input => sm.input_len,
        Dir::Output => sm.output_len,
    }
}

/// The length of the data that an object's submodule has, zero for an unknown one.
pub open spec fn object_len(o: IocrObject, model: DeviceModel, dir: Dir) -> int {
    match model.spec_find(o.slot, o.subslot) {
        Some(sm) => data_len(sm, dir) as int,
        None => 0,
    }
}

/// Whether byte `b` belongs to the data object `o`: to its data or to the IOPS byte behind.
pub open spec fn object_has(o: IocrObject, model: DeviceModel, dir: Dir, b: int) -> bool {
    o.frame_offset <= b <= o.frame_offset + object_len(o, model, dir)
}

/// Whether byte `b` belongs to one of the first `n` data objects of `cr`.
pub open spec fn data_covers(cr: IocrParams, model: DeviceModel, dir: Dir, n: int, b: int) -> bool {
    exists|j: int| 0 <= j < n && object_has(#[trigger] cr.io_data@[j], model, dir, b)
}

/// Whether byte `b` is one of the first `n` consumer status bytes of `cr`.
pub open spec fn status_covers(cr: IocrParams, n: int, b: int) -> bool {
    exists|j: int| 0 <= j < n && (#[trigger] cr.iocs@[j]).frame_offset == b
}

/// Why the `k`th data object cannot be placed behind the earlier ones.
pub open spec fn data_object_fault(
    cr: IocrParams,
    model: DeviceModel,
    dir: Dir,
    k: int,
) -> Option<LayoutError> {
    let o = cr.io_data@[k];
    let end = o.frame_offset + object_len(o, model, dir) + 1;
    if model.spec_find(o.slot, o.subslot) is None {
        Some(LayoutError::UnknownSubmodule { slot: o.slot, subslot: o.subslot })
    } else if end > cr.data_length {
        Some(
            LayoutError::OutOfBounds {
                slot: o.slot,
                subslot: o.subslot,
                end: end as usize,
                data_length: cr.data_length as usize,
            },
        )
    } else if exists|b: int|
        object_has(o, model, dir, b) && #[trigger] data_covers(cr, model, dir, k, b) {
        Some(LayoutError::Overlap { slot: o.slot, subslot: o.subslot })
    } else {
        None
    }
}

/// Why the `k`th consumer status byte cannot be placed behind the data objects and the
/// earlier ones.
pub open spec fn status_object_fault(
    cr: IocrParams,
    model: DeviceModel,
    dir: Dir,
    k: int,
) -> Option<LayoutError> {
    let o = cr.iocs@[k];
    let off = o.frame_offset as int;
    if off + 1 > cr.data_length {
        Some(
            LayoutError::OutOfBounds {
                slot: o.slot,
                subslot: o.subslot,
                end: (off + 1) as usize,
                data_length: cr.data_length as usize,
            },
        )
    } else if data_covers(cr, model, dir, cr.io_data@.len() as int, off) || status_covers(
        cr,
        k,
        off,
    ) {
        Some(LayoutError::Overlap { slot: o.slot, subslot: o.subslot })
    } else {
        None
    }
}

/// The fault of the first of the first `n` data objects that has one.
pub open spec fn data_fault(cr: IocrParams, model: DeviceModel, dir: Dir, n: nat) -> Option<
    LayoutError,
>
    decreases n,
{
    if n == 0 {
        None
    } else {
        match data_fault(cr, model, dir, (n - 1) as nat) {
            Some(e) => Some(e),
            None => data_object_fault(cr, model, dir, n - 1),
        }
    }
}

/// The fault of the first of the first `n` consumer status bytes that has one.
pub open spec fn status_fault(cr: IocrParams, model: DeviceModel, dir: Dir, n: nat) -> Option<
    LayoutError,
>
    decreases n,
{
    if n == 0 {
        None
    } else {
        match status_fault(cr, model, dir, (n - 1) as nat) {
            Some(e) => Some(e),
            None => status_object_fault(cr, model, dir, n - 1),
        }
    }
}

/// Why a CR has no layout, if it has none: its cycle does not fit 16 bits, a data object
/// cannot be placed, or a consumer status byte cannot.
pub open spec fn cr_fault(cr: IocrParams, model: DeviceModel, dir: Dir) -> Option<LayoutError> {
    if cr.send_clock_factor * cr.reduction_ratio > u16::MAX {
        Some(
            LayoutError::OutOfBounds {
                slot: 0,
                subslot: 0,
                end: u16::MAX as usize,
                data_length: cr.data_length as usize,
            },
        )
    } else if data_fault(cr, model, dir, cr.io_data@.len()) is Some {
        data_fault(cr, model, dir, cr.io_data@.len())
    } else {
        status_fault(cr, model, dir, cr.iocs@.len())
    }
}

/// Where a data object stands.
pub open spec fn placed(o: IocrObject, model: DeviceModel, dir: Dir) -> IoObject {
    IoObject {
        slot: o.slot,
        subslot: o.subslot,
        data_off: o.frame_offset as usize,
        data_len: object_len(o, model, dir) as usize,
        iops_off: (o.frame_offset + object_len(o, model, dir)) as usize,
    }
}

/// Where a consumer status byte stands.
pub open spec fn placed_status(o: IocrObject) -> CsObject {
    CsObject { slot: o.slot, subslot: o.subslot, iocs_off: o.frame_offset as usize }
}

impl CrLayout {
    /// Whether `self` is the table of `cr`: its timing, and every object at its offset.
    pub open spec fn lays_out(self, cr: IocrParams, model: DeviceModel, dir: Dir) -> bool {
        &&& self.frame_id == cr.frame_id
        &&& self.data_length == cr.data_length
        &&& self.cycle_step == cr.send_clock_factor * cr.reduction_ratio
        &&& self.watchdog == cr.data_hold_factor * self.cycle_step * CYCLE_UNIT
        &&& self.objects@ == Seq::new(
            cr.io_data@.len(),
            |i: int| placed(cr.io_data@[i], model, dir),
        )
        &&& self.iocs@ == Seq::new(cr.iocs@.len(), |i: int| placed_status(cr.iocs@[i]))
    }

    /// The send cycle period in nanoseconds: `cycle_step * CYCLE_UNIT`.
    pub fn period(&self) -> (ns: u64)
        ensures
            ns == self.cycle_step * CYCLE_UNIT,
            ns == self.cycle_step * 31_250,
    {
        CYCLE_UNIT * self.cycle_step as u64
    }
}

/// Mark `[off, off + len)` as occupied in `occupied`, or fail if any of those bytes are
/// already taken by another object.
fn mark(occupied: &mut Vec<bool>, off: usize, len: usize, slot: u16, subslot: u16) -> (res: Result<
    (),
    LayoutError,
>)
    requires
        off + len <= old(occupied).len(),
    ensures
        final(occupied)@.len() == old(occupied)@.len(),
        match res {
            Ok(_) => {
                &&& forall|b: int| off <= b < off + len ==> !(#[trigger] old(occupied)@[b])
                &&& forall|b: int| off <= b < off + len ==> #[trigger] final(occupied)@[b]
                &&& forall|b: int|
                    0 <= b < old(occupied)@.len() && !(off <= b < off + len)
                        ==> #[trigger] final(occupied)@[b] == old(occupied)@[b]
            },
            Err(e) => {
                &&& exists|b: int| off <= b < off + len && #[trigger] old(occupied)@[b]
                &&& e == LayoutError::Overlap { slot, subslot }
            },
        },
{
    let end: usize = off + len;
    let mut i: usize = off;
    while i < end
        invariant
            off <= i <= end,
            end == off + len,
            end <= occupied@.len(),
            occupied@.len() == old(occupied)@.len(),
            forall|b: int| off <= b < i ==> !(#[trigger] old(occupied)@[b]),
            forall|b: int| off <= b < i ==> #[trigger] occupied@[b],
            forall|b: int|
                0 <= b < occupied@.len() && !(off <= b < i) ==> #[trigger] occupied@[b] == old(
                    occupied,
                )@[b],
        decreases end - i,
    {
        if occupied[i] {
            assert(old(occupied)@[i as int]);
            return Err(LayoutError::Overlap { slot, subslot });
        }
        occupied.set(i, true);
        i = i + 1;
    }
    Ok(())
}

/// A fault among the first `m` data objects is the fault of all.
proof fn lemma_data_fault_prefix(cr: IocrParams, model: DeviceModel, dir: Dir, m: nat, n: nat)
    requires
        m <= n,
        data_fault(cr, model, dir, m) is Some,
    ensures
        data_fault(cr, model, dir, n) == data_fault(cr, model, dir, m),
    decreases n,
{
    if m < n {
        lemma_data_fault_prefix(cr, model, dir, m, (n - 1) as nat);
    }
}

/// A fault among the first `m` consumer status bytes is the fault of all.
proof fn lemma_status_fault_prefix(cr: IocrParams, model: DeviceModel, dir: Dir, m: nat, n: nat)
    requires
        m <= n,
        status_fault(cr, model, dir, m) is Some,
    ensures
        status_fault(cr, model, dir, n) == status_fault(cr, model, dir, m),
    decreases n,
{
    if m < n {
        lemma_status_fault_prefix(cr, model, dir, m, (n - 1) as nat);
    }
}

/// Place the data objects: their table and the bytes they occupy.
fn place_objects(cr: &IocrParams, model: &DeviceModel, dir: Dir) -> (res: Result<
    (Vec<IoObject>, Vec<bool>),
    LayoutError,
>)
    ensures
        match res {
            Ok((objects, occupied)) => {
                &&& data_fault(*cr, *model, dir, cr.io_data@.len()) is None
                &&& objects@ == Seq::new(
                    cr.io_data@.len(),
                    |i: int| placed(cr.io_data@[i], *model, dir),
                )
                &&& occupied@.len() == cr.data_length
                &&& forall|b: int|
                    0 <= b < occupied@.len() ==> #[trigger] occupied@[b] == data_covers(
                        *cr,
                        *model,
                        dir,
                        cr.io_data@.len() as int,
                        b,
                    )
            },
            Err(e) => data_fault(*cr, *model, dir, cr.io_data@.len()) == Some(e),
        },
{
    let data_length: usize = cr.data_length as usize;
    let mut occupied: Vec<bool> = vec![false; data_length];
    let mut objects: Vec<IoObject> = Vec::with_capacity(cr.io_data.len());
    let mut i: usize = 0;
    while i < cr.io_data.len()
        invariant
            i <= cr.io_data@.len(),
            data_length == cr.data_length,
            data_fault(*cr, *model, dir, i as nat) is None,
            objects@.len() == i,
            forall|k: int|
                0 <= k < i ==> #[trigger] objects@[k] == placed(cr.io_data@[k], *model, dir),
            occupied@.len() == data_length,
            forall|b: int|
                0 <= b < occupied@.len() ==> #[trigger] occupied@[b] == data_covers(
                    *cr,
                    *model,
                    dir,
                    i as int,
                    b,
                ),
        decreases cr.io_data@.len() - i,
    {
        let obj = cr.io_data[i];
        proof {
            if data_object_fault(*cr, *model, dir, i as int) is Some {
                assert(data_fault(*cr, *model, dir, (i + 1) as nat) == data_object_fault(
                    *cr,
                    *model,
                    dir,
                    i as int,
                ));
                lemma_data_fault_prefix(*cr, *model, dir, (i + 1) as nat, cr.io_data@.len());
            }
        }
        let len: usize = match model.find(obj.slot, obj.subslot) {
            None => {
                return Err(LayoutError::UnknownSubmodule { slot: obj.slot, subslot: obj.subslot });
            },
            Some(sm) => match dir {
                Dir::Input => sm.input_len as usize,
                Dir::Output => sm.output_len as usize,
            },
        };
        let data_off: usize = obj.frame_offset as usize;
        let iops_off: usize = data_off + len;
        let end: usize = iops_off + 1;
        if end > data_length {
            return Err(
                LayoutError::OutOfBounds { slot: obj.slot, subslot: obj.subslot, end, data_length },
            );
        }
        let ghost before = occupied@;
        match mark(&mut occupied, data_off, len, obj.slot, obj.subslot) {
            Ok(_) => {},
            Err(e) => {
                proof {
                    let b = choose|b: int| data_off <= b < data_off + len && #[trigger] before[b];
                    assert(object_has(obj, *model, dir, b) && data_covers(
                        *cr,
                        *model,
                        dir,
                        i as int,
                        b,
                    ));
                }
                return Err(e);
            },
        }
        let ghost middle = occupied@;
        match mark(&mut occupied, iops_off, 1, obj.slot, obj.subslot) {
            Ok(_) => {},
            Err(e) => {
                proof {
                    let b = choose|b: int| iops_off <= b < iops_off + 1 && #[trigger] middle[b];
                    assert(middle[b] == before[b]);
                    assert(object_has(obj, *model, dir, b) && data_covers(
                        *cr,
                        *model,
                        dir,
                        i as int,
                        b,
                    ));
                }
                return Err(e);
            },
        }
        objects.push(
            IoObject { slot: obj.slot, subslot: obj.subslot, data_off, data_len: len, iops_off },
        );
        proof {
            assert forall|b: int| object_has(obj, *model, dir, b) implies !data_covers(
                *cr,
                *model,
                dir,
                i as int,
                b,
            ) by {
                if b < iops_off {
                    assert(!before[b] && middle[b]);
                } else {
                    assert(!middle[b] && occupied@[b]);
                    assert(middle[b] == before[b]);
                }
            }
            assert forall|b: int| 0 <= b < occupied@.len() implies #[trigger] occupied@[b]
                == data_covers(*cr, *model, dir, i + 1, b) by {
                if object_has(obj, *model, dir, b) {
                    assert(object_has(cr.io_data@[i as int], *model, dir, b));
                    if b < iops_off {
                        assert(middle[b]);
                    }
                } else {
                    assert(middle[b] == before[b]);
                    assert(before[b] == data_covers(*cr, *model, dir, i as int, b));
                    if data_covers(*cr, *model, dir, i as int, b) {
                        let j = choose|j: int|
                            0 <= j < i && object_has(#[trigger] cr.io_data@[j], *model, dir, b);
                        assert(object_has(cr.io_data@[j], *model, dir, b));
                    }
                }
            }
        }
        i = i + 1;
    }
    assert(objects@ =~= Seq::new(
        cr.io_data@.len(),
        |i: int| placed(cr.io_data@[i], *model, dir),
    ));
    Ok((objects, occupied))
}

/// Build one CR's `CrLayout`: cycle timing plus its IO data and IOCS objects, each checked
/// to fit inside `data_length` and not overlap another object.
fn build_cr(cr: &IocrParams, model: &DeviceModel, dir: Dir) -> (res: Result<CrLayout, LayoutError>)
    ensures
        match res {
            Ok(l) => cr_fault(*cr, *model, dir) is None && l.lays_out(*cr, *model, dir),
            Err(e) => cr_fault(*cr, *model, dir) == Some(e),
        },
{
    let data_length: usize = cr.data_length as usize;
    let cycle: u32 = mul16(cr.send_clock_factor, cr.reduction_ratio);
    if cycle > 0xffff {
        return Err(
            LayoutError::OutOfBounds { slot: 0, subslot: 0, end: u16::MAX as usize, data_length },
        );
    }
    let cycle_step: u16 = cycle as u16;
    let hold: u32 = mul16(cr.data_hold_factor, cycle_step);
    let watchdog: u64 = hold as u64 * CYCLE_UNIT;
    let (objects, mut occupied) = place_objects(cr, model, dir)?;
    let mut iocs: Vec<CsObject> = Vec::with_capacity(cr.iocs.len());
    let mut k: usize = 0;
    while k < cr.iocs.len()
        invariant
            k <= cr.iocs@.len(),
            data_length == cr.data_length,
            cr.send_clock_factor * cr.reduction_ratio <= u16::MAX,
            data_fault(*cr, *model, dir, cr.io_data@.len()) is None,
            status_fault(*cr, *model, dir, k as nat) is None,
            iocs@.len() == k,
            forall|j: int| 0 <= j < k ==> #[trigger] iocs@[j] == placed_status(cr.iocs@[j]),
            occupied@.len() == data_length,
            forall|b: int|
                0 <= b < occupied@.len() ==> #[trigger] occupied@[b] == (data_covers(
                    *cr,
                    *model,
                    dir,
                    cr.io_data@.len() as int,
                    b,
                ) || status_covers(*cr, k as int, b)),
        decreases cr.iocs@.len() - k,
    {
        let obj = cr.iocs[k];
        proof {
            if status_object_fault(*cr, *model, dir, k as int) is Some {
                assert(status_fault(*cr, *model, dir, (k + 1) as nat) == status_object_fault(
                    *cr,
                    *model,
                    dir,
                    k as int,
                ));
                lemma_status_fault_prefix(*cr, *model, dir, (k + 1) as nat, cr.iocs@.len());
            }
        }
        let iocs_off: usize = obj.frame_offset as usize;
        let end: usize = iocs_off + 1;
        if end > data_length {
            return Err(
                LayoutError::OutOfBounds { slot: obj.slot, subslot: obj.subslot, end, data_length },
            );
        }
        let ghost before = occupied@;
        match mark(&mut occupied, iocs_off, 1, obj.slot, obj.subslot) {
            Ok(_) => {},
            Err(e) => {
                assert(before[iocs_off as int]);
                return Err(e);
            },
        }
        iocs.push(CsObject { slot: obj.slot, subslot: obj.subslot, iocs_off });
        proof {
            assert(!before[iocs_off as int] && occupied@[iocs_off as int]);
            assert forall|b: int| 0 <= b < occupied@.len() implies #[trigger] occupied@[b] == (
            data_covers(*cr, *model, dir, cr.io_data@.len() as int, b) || status_covers(
                *cr,
                k + 1,
                b,
            )) by {
                if b == iocs_off {
                    assert(cr.iocs@[k as int].frame_offset == b);
                } else {
                    assert(occupied@[b] == before[b]);
                    if status_covers(*cr, k as int, b) {
                        let j = choose|j: int|
                            0 <= j < k && (#[trigger] cr.iocs@[j]).frame_offset == b;
                        assert(cr.iocs@[j].frame_offset == b);
                    }
                }
            }
        }
        k = k + 1;
    }
    assert(iocs@ =~= Seq::new(cr.iocs@.len(), |i: int| placed_status(cr.iocs@[i])));
    Ok(CrLayout { frame_id: cr.frame_id, data_length, cycle_step, watchdog, objects, iocs })
}

/// The product of two 16-bit numbers.
fn mul16(a: u16, b: u16) -> (p: u32)
    ensures
        p == a * b,
{
    assert(a * b <= 0xffff * 0xffff) by (nonlinear_arith)
        requires
            a <= 0xffff,
            b <= 0xffff,
    ;
    a as u32 * b as u32
}

/// The offset of the data of the first object at `(slot, subslot)`.
pub open spec fn offset_of(objects: Seq<IoObject>, slot: u16, subslot: u16) -> Option<usize>
    decreases objects.len(),
{
    if objects.len() == 0 {
        None
    } else if objects[0].slot == slot && objects[0].subslot == subslot {
        Some(objects[0].data_off)
    } else {
        offset_of(objects.skip(1), slot, subslot)
    }
}

/// The cell of one submodule.
pub open spec fn cell_of(
    slot: u16,
    sm: SubmoduleModel,
    inputs: Seq<IoObject>,
    outputs: Seq<IoObject>,
) -> Cell {
    Cell {
        slot,
        subslot: sm.subslot,
        input_len: sm.input_len as usize,
        output_len: sm.output_len as usize,
        input_off: offset_of(inputs, slot, sm.subslot),
        output_off: offset_of(outputs, slot, sm.subslot),
    }
}

/// The cells of one slot's submodules, in order.
pub open spec fn slot_cells(s: SlotModel, inputs: Seq<IoObject>, outputs: Seq<IoObject>) -> Seq<
    Cell,
> {
    Seq::new(s.submodules@.len(), |i: int| cell_of(s.slot, s.submodules@[i], inputs, outputs))
}

/// The cells of all submodules, in model order.
pub open spec fn cells_of(
    slots: Seq<SlotModel>,
    inputs: Seq<IoObject>,
    outputs: Seq<IoObject>,
) -> Seq<Cell>
    decreases slots.len(),
{
    if slots.len() == 0 {
        Seq::empty()
    } else {
        cells_of(slots.drop_last(), inputs, outputs) + slot_cells(slots.last(), inputs, outputs)
    }
}

/// Find the data offset of the first object at `(slot, subslot)`.
fn find_off(objects: &Vec<IoObject>, slot: u16, subslot: u16) -> (r: Option<usize>)
    ensures
        r == offset_of(objects@, slot, subslot),
{
    let mut i: usize = 0;
    assert(objects@.skip(0) =~= objects@);
    while i < objects.len()
        invariant
            i <= objects@.len(),
            offset_of(objects@, slot, subslot) == offset_of(objects@.skip(i as int), slot, subslot),
        decreases objects@.len() - i,
    {
        if objects[i].slot == slot && objects[i].subslot == subslot {
            return Some(objects[i].data_off);
        }
        assert(objects@.skip(i as int).skip(1) =~= objects@.skip(i + 1));
        i = i + 1;
    }
    None
}

impl Layout {
    /// Why there is no layout, if there is none: the Input CR's fault, then the Output CR's.
    pub open spec fn fault(params: ArParams, model: DeviceModel) -> Option<LayoutError> {
        if cr_fault(params.input_cr, model, Dir::Input) is Some {
            cr_fault(params.input_cr, model, Dir::Input)
        } else {
            cr_fault(params.output_cr, model, Dir::Output)
        }
    }

    /// Whether `self` is the plan of `params` against `model`.
    pub open spec fn lays_out(self, params: ArParams, model: DeviceModel) -> bool {
        &&& self.input_cr.lays_out(params.input_cr, model, Dir::Input)
        &&& self.output_cr.lays_out(params.output_cr, model, Dir::Output)
        &&& self.cells@ == cells_of(
            model.slots@,
            self.input_cr.objects@,
            self.output_cr.objects@,
        )
    }

    /// Build the C-SDU plan for both CRs of `params` against `model`.
    pub fn from_ar(params: &ArParams, model: &DeviceModel) -> (res: Result<Layout, LayoutError>)
        ensures
            match res {
                Ok(l) => {
                    &&& Self::fault(*params, *model) is None
                    &&& l.lays_out(*params, *model)
                    &&& l.input_cr.watchdog == params.input_cr.data_hold_factor
                        * l.input_cr.cycle_step * 31_250
                    &&& l.output_cr.watchdog == params.output_cr.data_hold_factor
                        * l.output_cr.cycle_step * 31_250
                },
                Err(e) => Self::fault(*params, *model) == Some(e),
            },
    {
        let input_cr = build_cr(&params.input_cr, model, Dir::Input)?;
        let output_cr = build_cr(&params.output_cr, model, Dir::Output)?;
        let ghost ins = input_cr.objects@;
        let ghost outs = output_cr.objects@;
        let mut cells: Vec<Cell> = Vec::new();
        let mut i: usize = 0;
        assert(model.slots@.take(0) =~= Seq::empty());
        while i < model.slots.len()
            invariant
                i <= model.slots@.len(),
                ins == input_cr.objects@,
                outs == output_cr.objects@,
                cells@ == cells_of(model.slots@.take(i as int), ins, outs),
            decreases model.slots@.len() - i,
        {
            let slot = &model.slots[i];
            let ghost done = cells@;
            let mut k: usize = 0;
            assert(done =~= done + slot_cells(*slot, ins, outs).take(0));
            while k < slot.submodules.len()
                invariant
                    k <= slot.submodules@.len(),
                    ins == input_cr.objects@,
                    outs == output_cr.objects@,
                    cells@ == done + slot_cells(*slot, ins, outs).take(k as int),
                decreases slot.submodules@.len() - k,
            {
                let sm = slot.submodules[k];
                cells.push(
                    Cell {
                        slot: slot.slot,
                        subslot: sm.subslot,
                        input_len: sm.input_len as usize,
                        output_len: sm.output_len as usize,
                        input_off: find_off(&input_cr.objects, slot.slot, sm.subslot),
                        output_off: find_off(&output_cr.objects, slot.slot, sm.subslot),
                    },
                );
                k = k + 1;
                assert(cells@ =~= done + slot_cells(*slot, ins, outs).take(k as int));
            }
            proof {
                assert(slot_cells(*slot, ins, outs).take(k as int) =~= slot_cells(
                    *slot,
                    ins,
                    outs,
                ));
                assert(model.slots@.take(i + 1).drop_last() =~= model.slots@.take(i as int));
                assert(model.slots@.take(i + 1).last() == *slot);
            }
            i = i + 1;
        }
        assert(model.slots@.take(i as int) =~= model.slots@);
        Ok(Layout { input_cr, output_cr, cells })
    }
}

// ---------------------------------------------------------------------------------
// Laws
// ---------------------------------------------------------------------------------

proof fn lemma_no_data_fault(cr: IocrParams, model: DeviceModel, dir: Dir, n: nat, k: int)
    requires
        data_fault(cr, model, dir, n) is None,
        0 <= k < n,
    ensures
        data_object_fault(cr, model, dir, k) is None,
    decreases n,
{
    if k < n - 1 {
        lemma_no_data_fault(cr, model, dir, (n - 1) as nat, k);
    }
}

proof fn lemma_no_status_fault(cr: IocrParams, model: DeviceModel, dir: Dir, n: nat, k: int)
    requires
        status_fault(cr, model, dir, n) is None,
        0 <= k < n,
    ensures
        status_object_fault(cr, model, dir, k) is None,
    decreases n,
{
    if k < n - 1 {
        lemma_no_status_fault(cr, model, dir, (n - 1) as nat, k);
    }
}

/// In a CR that has a layout, every data object names a plugged submodule and lies, status
/// byte included, inside the CR's data, and no byte belongs to two of them.
pub proof fn data_objects_are_apart(cr: IocrParams, model: DeviceModel, dir: Dir, j: int, k: int)
    requires
        cr_fault(cr, model, dir) is None,
        0 <= j < k < cr.io_data@.len(),
    ensures
        model.spec_find(cr.io_data@[k].slot, cr.io_data@[k].subslot) is Some,
        cr.io_data@[k].frame_offset + object_len(cr.io_data@[k], model, dir) < cr.data_length,
        forall|b: int|
            !(object_has(cr.io_data@[j], model, dir, b) && object_has(
                cr.io_data@[k],
                model,
                dir,
                b,
            )),
{
    lemma_no_data_fault(cr, model, dir, cr.io_data@.len(), k);
    assert forall|b: int|
        !(object_has(cr.io_data@[j], model, dir, b) && object_has(cr.io_data@[k], model, dir, b)) by {
        if object_has(cr.io_data@[j], model, dir, b) && object_has(cr.io_data@[k], model, dir, b) {
            assert(data_covers(cr, model, dir, k, b));
        }
    }
}

/// In a CR that has a layout, every consumer status byte lies inside the CR's data, belongs
/// to no data object and is no other object's status byte.
pub proof fn status_bytes_are_apart(cr: IocrParams, model: DeviceModel, dir: Dir, k: int)
    requires
        cr_fault(cr, model, dir) is None,
        0 <= k < cr.iocs@.len(),
    ensures
        cr.iocs@[k].frame_offset < cr.data_length,
        forall|j: int|
            0 <= j < cr.io_data@.len() ==> !object_has(
                #[trigger] cr.io_data@[j],
                model,
                dir,
                cr.iocs@[k].frame_offset as int,
            ),
        forall|j: int|
            0 <= j < k ==> (#[trigger] cr.iocs@[j]).frame_offset != cr.iocs@[k].frame_offset,
{
    lemma_no_status_fault(cr, model, dir, cr.iocs@.len(), k);
}

/// The layout of an accepted request fails in two ways only: a cycle too long for its 16
/// bits, or objects that overlap. Submodules are known and objects fit, since the request
/// was accepted.
pub proof fn accepted_requests_lay_out(
    req: crate::cm::ConnectReq,
    model: DeviceModel,
    params: ArParams,
)
    requires
        crate::cm::connect::validate_fault(req, model) is None,
        params.extracts(req, model),
        params.input_cr.send_clock_factor * params.input_cr.reduction_ratio <= u16::MAX,
        params.output_cr.send_clock_factor * params.output_cr.reduction_ratio <= u16::MAX,
    ensures
        Layout::fault(params, model) is None || Layout::fault(params, model)->0 is Overlap,
{
    crate::cm::connect::accepted_objects_fit(req, model, params);
    lemma_fits_lays_out(params.input_cr, model, Dir::Input);
    lemma_fits_lays_out(params.output_cr, model, Dir::Output);
}

proof fn lemma_fits_lays_out(cr: IocrParams, model: DeviceModel, dir: Dir)
    requires
        cr.send_clock_factor * cr.reduction_ratio <= u16::MAX,
        forall|k: int|
            0 <= k < cr.io_data@.len() ==> crate::cm::connect::data_object_fits(
                #[trigger] cr.io_data@[k],
                model,
                cr.data_length,
                dir == Dir::Output,
            ),
        forall|k: int|
            0 <= k < cr.iocs@.len() ==> (#[trigger] cr.iocs@[k]).frame_offset < cr.data_length,
    ensures
        cr_fault(cr, model, dir) is None || cr_fault(cr, model, dir)->0 is Overlap,
{
    lemma_data_fits(cr, model, dir, cr.io_data@.len());
    lemma_status_fits(cr, model, dir, cr.iocs@.len());
}

proof fn lemma_data_fits(cr: IocrParams, model: DeviceModel, dir: Dir, n: nat)
    requires
        n <= cr.io_data@.len(),
        forall|k: int|
            0 <= k < cr.io_data@.len() ==> crate::cm::connect::data_object_fits(
                #[trigger] cr.io_data@[k],
                model,
                cr.data_length,
                dir == Dir::Output,
            ),
    ensures
        data_fault(cr, model, dir, n) is None || data_fault(cr, model, dir, n)->0 is Overlap,
    decreases n,
{
    if n > 0 {
        lemma_data_fits(cr, model, dir, (n - 1) as nat);
        assert(crate::cm::connect::data_object_fits(
            cr.io_data@[n - 1],
            model,
            cr.data_length,
            dir == Dir::Output,
        ));
    }
}

proof fn lemma_status_fits(cr: IocrParams, model: DeviceModel, dir: Dir, n: nat)
    requires
        n <= cr.iocs@.len(),
        forall|k: int|
            0 <= k < cr.iocs@.len() ==> (#[trigger] cr.iocs@[k]).frame_offset < cr.data_length,
    ensures
        status_fault(cr, model, dir, n) is None || status_fault(cr, model, dir, n)->0 is Overlap,
    decreases n,
{
    if n > 0 {
        lemma_status_fits(cr, model, dir, (n - 1) as nat);
        assert(cr.iocs@[n - 1].frame_offset < cr.data_length);
    }
}

/// The time of a laid out CR, in nanoseconds: its cycle is what was negotiated, in units of
/// 31.25 us, and its data are held for so many cycles as were negotiated. So two CRs that hold
/// for as many cycles have watchdogs in the ratio of their cycles.
pub proof fn data_are_held_for_whole_cycles(l: Layout, params: ArParams, model: DeviceModel)
    requires
        l.lays_out(params, model),
    ensures
        l.input_cr.cycle_step == params.input_cr.send_clock_factor
            * params.input_cr.reduction_ratio,
        l.input_cr.watchdog == params.input_cr.data_hold_factor * (l.input_cr.cycle_step * 31_250),
        l.output_cr.cycle_step == params.output_cr.send_clock_factor
            * params.output_cr.reduction_ratio,
        l.output_cr.watchdog == params.output_cr.data_hold_factor * (l.output_cr.cycle_step
            * 31_250),
        params.input_cr.data_hold_factor == params.output_cr.data_hold_factor
            ==> l.input_cr.watchdog * l.output_cr.cycle_step == l.output_cr.watchdog
            * l.input_cr.cycle_step,
{
    let (a, b) = (params.input_cr.data_hold_factor as int, params.output_cr.data_hold_factor as int);
    let (x, y) = (l.input_cr.cycle_step as int, l.output_cr.cycle_step as int);
    assert(a * x * 31_250 == a * (x * 31_250)) by (nonlinear_arith);
    assert(b * y * 31_250 == b * (y * 31_250)) by (nonlinear_arith);
    assert(a * (x * 31_250) * y == a * (y * 31_250) * x) by (nonlinear_arith);
}

/// Whether the table of one CR has each of its objects where it was negotiated, with the status
/// byte of data directly behind it.
pub open spec fn stands_as_negotiated(t: CrLayout, cr: IocrParams, model: DeviceModel, dir: Dir) -> bool {
    &&& t.frame_id == cr.frame_id
    &&& t.data_length == cr.data_length
    &&& t.objects@.len() == cr.io_data@.len()
    &&& forall|k: int|
        0 <= k < cr.io_data@.len() ==> {
            let (x, o) = (#[trigger] t.objects@[k], cr.io_data@[k]);
            &&& x.slot == o.slot
            &&& x.subslot == o.subslot
            &&& x.data_off == o.frame_offset
            &&& x.iops_off == o.frame_offset + x.data_len
            &&& x.iops_off < cr.data_length
            &&& model.spec_find(o.slot, o.subslot) matches Some(sm) && x.data_len == (
            if dir == Dir::Input {
                sm.input_len
            } else {
                sm.output_len
            })
        }
    &&& t.iocs@.len() == cr.iocs@.len()
    &&& forall|k: int|
        0 <= k < cr.iocs@.len() ==> {
            let (x, o) = (#[trigger] t.iocs@[k], cr.iocs@[k]);
            &&& x.slot == o.slot
            &&& x.subslot == o.subslot
            &&& x.iocs_off == o.frame_offset
            &&& x.iocs_off < cr.data_length
        }
}

/// Whether no byte of a CR's data belongs to two objects of its table.
pub open spec fn shares_no_byte(t: CrLayout) -> bool {
    &&& forall|j: int, k: int|
        0 <= j < k < t.objects@.len() ==> (#[trigger] t.objects@[j]).iops_off < (
        #[trigger] t.objects@[k]).data_off || t.objects@[k].iops_off < t.objects@[j].data_off
    &&& forall|j: int, k: int|
        0 <= j < t.objects@.len() && 0 <= k < t.iocs@.len() ==> (#[trigger] t.iocs@[k]).iocs_off < (
        #[trigger] t.objects@[j]).data_off || t.objects@[j].iops_off < t.iocs@[k].iocs_off
    &&& forall|j: int, k: int|
        0 <= j < k < t.iocs@.len() ==> (#[trigger] t.iocs@[j]).iocs_off != (
        #[trigger] t.iocs@[k]).iocs_off
}

proof fn lemma_stands(t: CrLayout, cr: IocrParams, model: DeviceModel, dir: Dir)
    requires
        t.lays_out(cr, model, dir),
        cr_fault(cr, model, dir) is None,
    ensures
        stands_as_negotiated(t, cr, model, dir),
        shares_no_byte(t),
{
    assert forall|k: int| 0 <= k < cr.io_data@.len() implies {
        let (x, o) = (#[trigger] t.objects@[k], cr.io_data@[k]);
        &&& x.slot == o.slot
        &&& x.subslot == o.subslot
        &&& x.data_off == o.frame_offset
        &&& x.iops_off == o.frame_offset + x.data_len
        &&& x.iops_off < cr.data_length
        &&& model.spec_find(o.slot, o.subslot) matches Some(sm) && x.data_len == (
        if dir == Dir::Input {
            sm.input_len
        } else {
            sm.output_len
        })
    } by {
        lemma_no_data_fault(cr, model, dir, cr.io_data@.len(), k);
        assert(t.objects@[k] == placed(cr.io_data@[k], model, dir));
    }
    assert forall|k: int| 0 <= k < cr.iocs@.len() implies {
        let (x, o) = (#[trigger] t.iocs@[k], cr.iocs@[k]);
        &&& x.slot == o.slot
        &&& x.subslot == o.subslot
        &&& x.iocs_off == o.frame_offset
        &&& x.iocs_off < cr.data_length
    } by {
        lemma_no_status_fault(cr, model, dir, cr.iocs@.len(), k);
        assert(t.iocs@[k] == placed_status(cr.iocs@[k]));
    }
    assert forall|j: int, k: int| 0 <= j < k < t.objects@.len() implies (
    #[trigger] t.objects@[j]).iops_off < (#[trigger] t.objects@[k]).data_off
        || t.objects@[k].iops_off < t.objects@[j].data_off by {
        data_objects_are_apart(cr, model, dir, j, k);
        let (a, b) = (cr.io_data@[j], cr.io_data@[k]);
        let from = if a.frame_offset < b.frame_offset {
            b.frame_offset as int
        } else {
            a.frame_offset as int
        };
        assert(!(object_has(a, model, dir, from) && object_has(b, model, dir, from)));
    }
    assert forall|j: int, k: int| 0 <= j < t.objects@.len() && 0 <= k < t.iocs@.len() implies (
    #[trigger] t.iocs@[k]).iocs_off < (#[trigger] t.objects@[j]).data_off
        || t.objects@[j].iops_off < t.iocs@[k].iocs_off by {
        status_bytes_are_apart(cr, model, dir, k);
        assert(!object_has(cr.io_data@[j], model, dir, cr.iocs@[k].frame_offset as int));
    }
    assert forall|j: int, k: int| 0 <= j < k < t.iocs@.len() implies (
    #[trigger] t.iocs@[j]).iocs_off != (#[trigger] t.iocs@[k]).iocs_off by {
        status_bytes_are_apart(cr, model, dir, k);
        assert(cr.iocs@[j].frame_offset != cr.iocs@[k].frame_offset);
    }
}

/// A layout has every object of both CRs where it was negotiated, the data of a submodule as
/// long as the device has it in that direction, and no byte belongs to two of them.
pub proof fn objects_stand_as_negotiated(l: Layout, params: ArParams, model: DeviceModel)
    requires
        Layout::fault(params, model) is None,
        l.lays_out(params, model),
    ensures
        stands_as_negotiated(l.input_cr, params.input_cr, model, Dir::Input),
        shares_no_byte(l.input_cr),
        stands_as_negotiated(l.output_cr, params.output_cr, model, Dir::Output),
        shares_no_byte(l.output_cr),
{
    lemma_stands(l.input_cr, params.input_cr, model, Dir::Input);
    lemma_stands(l.output_cr, params.output_cr, model, Dir::Output);
}

/// A table that has every object where it was negotiated, no byte twice, and a cycle that fits
/// its 16 bits is not refused: there is nothing else that a CR is refused for.
pub proof fn only_overlaps_and_overruns_are_refused(
    t: CrLayout,
    cr: IocrParams,
    model: DeviceModel,
    dir: Dir,
)
    requires
        stands_as_negotiated(t, cr, model, dir),
        shares_no_byte(t),
        cr.send_clock_factor * cr.reduction_ratio <= 0xffff,
    ensures
        cr_fault(cr, model, dir) is None,
{
    lemma_all_placed(t, cr, model, dir, cr.io_data@.len());
    lemma_all_status_placed(t, cr, model, dir, cr.iocs@.len());
}

proof fn lemma_all_placed(t: CrLayout, cr: IocrParams, model: DeviceModel, dir: Dir, n: nat)
    requires
        stands_as_negotiated(t, cr, model, dir),
        shares_no_byte(t),
        n <= cr.io_data@.len(),
    ensures
        data_fault(cr, model, dir, n) is None,
    decreases n,
{
    if n > 0 {
        let k = n - 1;
        lemma_all_placed(t, cr, model, dir, k as nat);
        let (x, o) = (t.objects@[k], cr.io_data@[k]);
        assert(x.data_off == o.frame_offset);
        assert forall|b: int| object_has(o, model, dir, b) implies !(
        #[trigger] data_covers(cr, model, dir, k, b)) by {
            if data_covers(cr, model, dir, k, b) {
                let j = choose|j: int|
                    0 <= j < k && object_has(#[trigger] cr.io_data@[j], model, dir, b);
                let y = t.objects@[j];
                assert(y.data_off == cr.io_data@[j].frame_offset);
                assert(y.iops_off < x.data_off || x.iops_off < y.data_off);
            }
        }
    }
}

proof fn lemma_all_status_placed(t: CrLayout, cr: IocrParams, model: DeviceModel, dir: Dir, n: nat)
    requires
        stands_as_negotiated(t, cr, model, dir),
        shares_no_byte(t),
        n <= cr.iocs@.len(),
    ensures
        status_fault(cr, model, dir, n) is None,
    decreases n,
{
    if n > 0 {
        let k = n - 1;
        lemma_all_status_placed(t, cr, model, dir, k as nat);
        let (x, off) = (t.iocs@[k], cr.iocs@[k].frame_offset as int);
        assert(x.iocs_off == off);
        if data_covers(cr, model, dir, cr.io_data@.len() as int, off) {
            let j = choose|j: int|
                0 <= j < cr.io_data@.len() && object_has(
                    #[trigger] cr.io_data@[j],
                    model,
                    dir,
                    off,
                );
            let y = t.objects@[j];
            assert(y.data_off == cr.io_data@[j].frame_offset);
            assert(x.iocs_off < y.data_off || y.iops_off < x.iocs_off);
        }
        if status_covers(cr, k, off) {
            let j = choose|j: int| 0 <= j < k && (#[trigger] cr.iocs@[j]).frame_offset == off;
            assert(t.iocs@[j].iocs_off == off);
            assert(t.iocs@[j].iocs_off != t.iocs@[k].iocs_off);
        }
    }
}

/// A search for an object's offset ends at the first of its submodule.
proof fn lemma_offset_of(objects: Seq<IoObject>, slot: u16, subslot: u16)
    ensures
        match offset_of(objects, slot, subslot) {
            Some(off) => exists|k: int|
                {
                    &&& 0 <= k < objects.len()
                    &&& (#[trigger] objects[k]).slot == slot
                    &&& objects[k].subslot == subslot
                    &&& objects[k].data_off == off
                    &&& forall|j: int|
                        0 <= j < k ==> !((#[trigger] objects[j]).slot == slot && objects[j].subslot
                            == subslot)
                },
            None => forall|k: int|
                0 <= k < objects.len() ==> !((#[trigger] objects[k]).slot == slot
                    && objects[k].subslot == subslot),
        },
    decreases objects.len(),
{
    if objects.len() > 0 && !(objects[0].slot == slot && objects[0].subslot == subslot) {
        let rest = objects.skip(1);
        lemma_offset_of(rest, slot, subslot);
        match offset_of(objects, slot, subslot) {
            Some(off) => {
                let k = choose|k: int|
                    {
                        &&& 0 <= k < rest.len()
                        &&& (#[trigger] rest[k]).slot == slot
                        &&& rest[k].subslot == subslot
                        &&& rest[k].data_off == off
                        &&& forall|j: int|
                            0 <= j < k ==> !((#[trigger] rest[j]).slot == slot && rest[j].subslot
                                == subslot)
                    };
                assert(objects[k + 1] == rest[k]);
                assert forall|j: int| 0 <= j < k + 1 implies !((#[trigger] objects[j]).slot == slot
                    && objects[j].subslot == subslot) by {
                    if j > 0 {
                        assert(rest[j - 1] == objects[j]);
                    }
                }
            },
            None => {
                assert forall|k: int| 0 <= k < objects.len() implies !((
                #[trigger] objects[k]).slot == slot && objects[k].subslot == subslot) by {
                    if k > 0 {
                        assert(rest[k - 1] == objects[k]);
                    }
                }
            },
        }
    } else if objects.len() > 0 {
        assert(objects[0].slot == slot);
    }
}

/// Whether an offset is that of the first object of a submodule, and absent where there is none.
pub open spec fn is_offset_in(
    off: Option<usize>,
    objects: Seq<IoObject>,
    slot: u16,
    subslot: u16,
) -> bool {
    match off {
        Some(off) => exists|k: int|
            {
                &&& 0 <= k < objects.len()
                &&& (#[trigger] objects[k]).slot == slot
                &&& objects[k].subslot == subslot
                &&& objects[k].data_off == off
                &&& forall|j: int|
                    0 <= j < k ==> !((#[trigger] objects[j]).slot == slot && objects[j].subslot
                        == subslot)
            },
        None => forall|k: int|
            0 <= k < objects.len() ==> !((#[trigger] objects[k]).slot == slot && objects[k].subslot
                == subslot),
    }
}

/// How many submodules the first `n` slots have.
pub open spec fn submodules_before(slots: Seq<SlotModel>, n: int) -> int
    decreases n,
{
    if n <= 0 {
        0
    } else {
        submodules_before(slots, n - 1) + slots[n - 1].submodules@.len()
    }
}

proof fn lemma_cells(slots: Seq<SlotModel>, ins: Seq<IoObject>, outs: Seq<IoObject>, n: int)
    requires
        0 <= n <= slots.len(),
    ensures
        submodules_before(slots, n) >= 0,
        cells_of(slots.take(n), ins, outs).len() == submodules_before(slots, n),
        forall|i: int, j: int|
            0 <= i < n && 0 <= j < slots[i].submodules@.len() ==> {
                let at = submodules_before(slots, i) + j;
                &&& 0 <= at < submodules_before(slots, n)
                &&& cells_of(slots.take(n), ins, outs)[at] == cell_of(
                    slots[i].slot,
                    #[trigger] slots[i].submodules@[j],
                    ins,
                    outs,
                )
            },
    decreases n,
{
    if n > 0 {
        lemma_cells(slots, ins, outs, n - 1);
        assert(slots.take(n).drop_last() =~= slots.take(n - 1));
        assert(slots.take(n).last() == slots[n - 1]);
    }
}

/// The cells list every submodule of the device, in its order: slot by slot, each with its
/// lengths, and with the offset of its data in either CR where it has data there.
pub proof fn every_submodule_has_its_cell(
    l: Layout,
    params: ArParams,
    model: DeviceModel,
    i: int,
    j: int,
)
    requires
        l.lays_out(params, model),
        0 <= i < model.slots@.len(),
        0 <= j < model.slots@[i].submodules@.len(),
    ensures
        l.cells@.len() == submodules_before(model.slots@, model.slots@.len() as int),
        ({
            let at = submodules_before(model.slots@, i) + j;
            let (s, sm) = (model.slots@[i], model.slots@[i].submodules@[j]);
            let c = l.cells@[at];
            &&& 0 <= at < l.cells@.len()
            &&& c.slot == s.slot
            &&& c.subslot == sm.subslot
            &&& c.input_len == sm.input_len
            &&& c.output_len == sm.output_len
            &&& is_offset_in(c.input_off, l.input_cr.objects@, s.slot, sm.subslot)
            &&& is_offset_in(c.output_off, l.output_cr.objects@, s.slot, sm.subslot)
        }),
{
    let n = model.slots@.len() as int;
    let (ins, outs) = (l.input_cr.objects@, l.output_cr.objects@);
    let (s, sm) = (model.slots@[i], model.slots@[i].submodules@[j]);
    assert(model.slots@.take(n) =~= model.slots@);
    lemma_cells(model.slots@, ins, outs, n);
    lemma_offset_of(ins, s.slot, sm.subslot);
    lemma_offset_of(outs, s.slot, sm.subslot);
    let at = submodules_before(model.slots@, i) + j;
    assert(l.cells@[at] == cell_of(s.slot, sm, ins, outs));
}

} // verus!
