//! Device model: the slot/submodule structure this device instance offers, used to validate
//! a Connect request against what is actually plugged.

use vstd::prelude::*;

use crate::eth::MacAddr;
use crate::rpc::Uuid;

verus! {

/// A device's slot/submodule structure plus the identity fields needed to answer Connect
/// (station name, MAC, alarm sizing) and to build the PNIO object UUID.
#[derive(Debug, Clone, PartialEq)]
pub struct DeviceModel {
    pub vendor_id: u16,
    pub device_id: u16,
    pub instance: u16,
    pub station_name: String,
    pub mac: MacAddr,
    pub max_alarm_data_length: u16,
    pub slots: Vec<SlotModel>,
}

/// One plugged module and its submodules.
#[derive(Debug, Clone, PartialEq)]
pub struct SlotModel {
    pub slot: u16,
    pub module_ident: u32,
    pub submodules: Vec<SubmoduleModel>,
}

/// One plugged submodule and the lengths of its data.
#[derive(Debug, Clone, Copy, PartialEq, Eq, Structural)]
pub struct SubmoduleModel {
    pub subslot: u16,
    pub submodule_ident: u32,
    pub input_len: u16,
    pub output_len: u16,
}

/// The index of the first slot numbered `slot`, or the number of slots if there is none.
pub open spec fn slot_pos(slots: Seq<SlotModel>, slot: u16) -> int
    decreases slots.len(),
{
    if slots.len() == 0 {
        0
    } else if slots[0].slot == slot {
        0
    } else {
        1 + slot_pos(slots.skip(1), slot)
    }
}

/// The index of the first submodule numbered `subslot`, or the number of submodules if
/// there is none.
pub open spec fn subslot_pos(submodules: Seq<SubmoduleModel>, subslot: u16) -> int
    decreases submodules.len(),
{
    if submodules.len() == 0 {
        0
    } else if submodules[0].subslot == subslot {
        0
    } else {
        1 + subslot_pos(submodules.skip(1), subslot)
    }
}

/// The first slot with a number is where no earlier one has it.
pub proof fn lemma_slot_pos(slots: Seq<SlotModel>, slot: u16, i: int)
    requires
        0 <= i <= slots.len(),
        i < slots.len() ==> slots[i].slot == slot,
        forall|j: int| 0 <= j < i ==> (#[trigger] slots[j]).slot != slot,
    ensures
        slot_pos(slots, slot) == i,
    decreases slots.len(),
{
    if slots.len() > 0 && i > 0 {
        assert(slots[0].slot != slot);
        lemma_slot_pos(slots.skip(1), slot, i - 1);
    }
}

/// The first submodule with a number is where no earlier one has it.
pub proof fn lemma_subslot_pos(submodules: Seq<SubmoduleModel>, subslot: u16, i: int)
    requires
        0 <= i <= submodules.len(),
        i < submodules.len() ==> submodules[i].subslot == subslot,
        forall|j: int| 0 <= j < i ==> (#[trigger] submodules[j]).subslot != subslot,
    ensures
        subslot_pos(submodules, subslot) == i,
    decreases submodules.len(),
{
    if submodules.len() > 0 && i > 0 {
        assert(submodules[0].subslot != subslot);
        lemma_subslot_pos(submodules.skip(1), subslot, i - 1);
    }
}

/// The submodule with these four fields.
pub(crate) fn submodule(subslot: u16, submodule_ident: u32, input_len: u16, output_len: u16) -> (r:
    SubmoduleModel)
    ensures
        r == (SubmoduleModel { subslot, submodule_ident, input_len, output_len }),
{
    SubmoduleModel { subslot, submodule_ident, input_len, output_len }
}

/// The index of the first slot numbered `slot`, or the number of slots if there is none.
pub fn find_slot(slots: &Vec<SlotModel>, slot: u16) -> (i: usize)
    ensures
        i == slot_pos(slots@, slot),
        i <= slots@.len(),
        i < slots@.len() ==> slots@[i as int].slot == slot,
{
    let mut i: usize = 0;
    while i < slots.len()
        invariant
            i <= slots@.len(),
            forall|j: int| 0 <= j < i ==> (#[trigger] slots@[j]).slot != slot,
        decreases slots@.len() - i,
    {
        if slots[i].slot == slot {
            proof {
                lemma_slot_pos(slots@, slot, i as int);
            }
            return i;
        }
        i = i + 1;
    }
    proof {
        lemma_slot_pos(slots@, slot, i as int);
    }
    i
}

impl DeviceModel {
    /// The submodule plugged at `(slot, subslot)`: the first of that number in the first
    /// slot of that number.
    pub open spec fn spec_find(self, slot: u16, subslot: u16) -> Option<SubmoduleModel> {
        let i = slot_pos(self.slots@, slot);
        if i == self.slots@.len() {
            None
        } else {
            let submodules = self.slots@[i].submodules@;
            let j = subslot_pos(submodules, subslot);
            if j == submodules.len() {
                None
            } else {
                Some(submodules[j])
            }
        }
    }

    /// Look up the submodule plugged at `(slot, subslot)`, if any.
    pub fn find(&self, slot: u16, subslot: u16) -> (r: Option<&SubmoduleModel>)
        ensures
            match r {
                Some(sm) => self.spec_find(slot, subslot) == Some(*sm),
                None => self.spec_find(slot, subslot) is None,
            },
    {
        let i: usize = find_slot(&self.slots, slot);
        if i == self.slots.len() {
            return None;
        }
        let submodules = &self.slots[i].submodules;
        let mut j: usize = 0;
        while j < submodules.len()
            invariant
                j <= submodules@.len(),
                i < self.slots@.len(),
                i == slot_pos(self.slots@, slot),
                submodules@ == self.slots@[i as int].submodules@,
                forall|k: int| 0 <= k < j ==> (#[trigger] submodules@[k]).subslot != subslot,
            decreases submodules@.len() - j,
        {
            if submodules[j].subslot == subslot {
                proof {
                    lemma_subslot_pos(submodules@, subslot, j as int);
                }
                return Some(&submodules[j]);
            }
            j = j + 1;
        }
        proof {
            lemma_subslot_pos(submodules@, subslot, j as int);
        }
        None
    }

    /// The PNIO object UUID for this device instance:
    /// `dea00000-6c97-11d1-8271-{instance}{device_id}{vendor_id}`.
    pub fn object_uuid(&self) -> (u: Uuid)
        ensures
            u == (Uuid {
                data1: 0xdea0_0000,
                data2: 0x6c97,
                data3: 0x11d1,
                data4: (0x8271_0000_0000_0000 + self.instance * 0x1_0000_0000 + self.device_id
                    * 0x1_0000 + self.vendor_id) as u64,
            }),
    {
        Uuid::pnio_object(self.instance, self.device_id, self.vendor_id)
    }

    /// The identity and the five slots of the "rt-labs-dev" sample application.
    pub fn pnet_sample(mac: MacAddr) -> (m: DeviceModel)
        ensures
            m.vendor_id == 0x0493,
            m.device_id == 0x0002,
            m.instance == 1,
            m.station_name@ == "rt-labs-dev"@,
            m.mac == mac,
            m.max_alarm_data_length == 200,
            m.slots@.len() == 5,
            m.slots@[0].slot == 0 && m.slots@[0].module_ident == 0x1,
            m.slots@[1].slot == 1 && m.slots@[1].module_ident == 0x30,
            m.slots@[2].slot == 2 && m.slots@[2].module_ident == 0x31,
            m.slots@[3].slot == 3 && m.slots@[3].module_ident == 0x32,
            m.slots@[4].slot == 4 && m.slots@[4].module_ident == 0x40,
            m.slots@[0].submodules@ == seq![
                SubmoduleModel { subslot: 1, submodule_ident: 0x1, input_len: 0, output_len: 0 },
                SubmoduleModel {
                    subslot: 0x8000,
                    submodule_ident: 0x8000,
                    input_len: 0,
                    output_len: 0,
                },
                SubmoduleModel {
                    subslot: 0x8001,
                    submodule_ident: 0x8001,
                    input_len: 0,
                    output_len: 0,
                },
            ],
            m.slots@[1].submodules@ == seq![
                SubmoduleModel { subslot: 1, submodule_ident: 0x130, input_len: 1, output_len: 0 },
            ],
            m.slots@[2].submodules@ == seq![
                SubmoduleModel { subslot: 1, submodule_ident: 0x131, input_len: 0, output_len: 1 },
            ],
            m.slots@[3].submodules@ == seq![
                SubmoduleModel { subslot: 1, submodule_ident: 0x132, input_len: 1, output_len: 1 },
            ],
            m.slots@[4].submodules@ == seq![
                SubmoduleModel { subslot: 1, submodule_ident: 0x140, input_len: 8, output_len: 8 },
            ],
    {
        DeviceModel {
            vendor_id: 0x0493,
            device_id: 0x0002,
            instance: 1,
            station_name: "rt-labs-dev".to_owned(),
            mac,
            max_alarm_data_length: 200,
            slots: vec![
                SlotModel {
                    slot: 0,
                    module_ident: 0x1,
                    submodules: vec![
                        submodule(1, 0x1, 0, 0),
                        submodule(0x8000, 0x8000, 0, 0),
                        submodule(0x8001, 0x8001, 0, 0),
                    ],
                },
                SlotModel {
                    slot: 1,
                    module_ident: 0x30,
                    submodules: vec![submodule(1, 0x130, 1, 0)],
                },
                SlotModel {
                    slot: 2,
                    module_ident: 0x31,
                    submodules: vec![submodule(1, 0x131, 0, 1)],
                },
                SlotModel {
                    slot: 3,
                    module_ident: 0x32,
                    submodules: vec![submodule(1, 0x132, 1, 1)],
                },
                SlotModel {
                    slot: 4,
                    module_ident: 0x40,
                    submodules: vec![submodule(1, 0x140, 8, 8)],
                },
            ],
        }
    }
}

/// A search for a slot ends at the first that has the number.
pub proof fn lemma_slot_found(slots: Seq<SlotModel>, slot: u16)
    ensures
        0 <= slot_pos(slots, slot) <= slots.len(),
        slot_pos(slots, slot) < slots.len() ==> slots[slot_pos(slots, slot)].slot == slot,
        forall|k: int| 0 <= k < slot_pos(slots, slot) ==> (#[trigger] slots[k]).slot != slot,
    decreases slots.len(),
{
    if slots.len() > 0 && slots[0].slot != slot {
        let rest = slots.skip(1);
        lemma_slot_found(rest, slot);
        assert forall|k: int| 0 <= k < slot_pos(slots, slot) implies (#[trigger] slots[k]).slot
            != slot by {
            if k > 0 {
                assert(rest[k - 1] == slots[k]);
            }
        }
    }
}

/// A search for a subslot ends at the first that has the number.
proof fn lemma_subslot_found(submodules: Seq<SubmoduleModel>, subslot: u16)
    ensures
        0 <= subslot_pos(submodules, subslot) <= submodules.len(),
        subslot_pos(submodules, subslot) < submodules.len() ==> submodules[subslot_pos(
            submodules,
            subslot,
        )].subslot == subslot,
        forall|k: int|
            0 <= k < subslot_pos(submodules, subslot) ==> (#[trigger] submodules[k]).subslot
                != subslot,
    decreases submodules.len(),
{
    if submodules.len() > 0 && submodules[0].subslot != subslot {
        let rest = submodules.skip(1);
        lemma_subslot_found(rest, subslot);
        assert forall|k: int| 0 <= k < subslot_pos(submodules, subslot) implies (
        #[trigger] submodules[k]).subslot != subslot by {
            if k > 0 {
                assert(rest[k - 1] == submodules[k]);
            }
        }
    }
}

/// A lookup finds what is plugged: a submodule found is the first of its subslot in the first
/// slot of its number, and where none is found, that slot has none of that subslot or there is
/// no such slot.
pub proof fn a_lookup_finds_what_is_plugged(m: DeviceModel, slot: u16, subslot: u16)
    ensures
        match m.spec_find(slot, subslot) {
            Some(sm) => exists|i: int, j: int|
                {
                    &&& 0 <= i < m.slots@.len()
                    &&& 0 <= j < m.slots@[i].submodules@.len()
                    &&& (#[trigger] m.slots@[i].submodules@[j]) == sm
                    &&& m.slots@[i].slot == slot
                    &&& sm.subslot == subslot
                    &&& forall|k: int| 0 <= k < i ==> (#[trigger] m.slots@[k]).slot != slot
                    &&& forall|k: int|
                        0 <= k < j ==> (#[trigger] m.slots@[i].submodules@[k]).subslot != subslot
                },
            None => forall|i: int|
                0 <= i < m.slots@.len() && (#[trigger] m.slots@[i]).slot == slot && (forall|k: int|
                    0 <= k < i ==> (#[trigger] m.slots@[k]).slot != slot) ==> (forall|j: int|
                    0 <= j < m.slots@[i].submodules@.len() ==> (
                    #[trigger] m.slots@[i].submodules@[j]).subslot != subslot),
        },
{
    let i = slot_pos(m.slots@, slot);
    lemma_slot_found(m.slots@, slot);
    if i < m.slots@.len() {
        lemma_subslot_found(m.slots@[i].submodules@, subslot);
    }
    if let Some(sm) = m.spec_find(slot, subslot) {
        let j = subslot_pos(m.slots@[i].submodules@, subslot);
        assert(m.slots@[i].submodules@[j] == sm);
    } else {
        assert forall|a: int|
            0 <= a < m.slots@.len() && (#[trigger] m.slots@[a]).slot == slot && (forall|k: int|
                0 <= k < a ==> (#[trigger] m.slots@[k]).slot != slot) implies forall|j: int|
            0 <= j < m.slots@[a].submodules@.len() ==> (
            #[trigger] m.slots@[a].submodules@[j]).subslot != subslot by {
            lemma_slot_pos(m.slots@, slot, a);
        }
    }
}

/// The first of its numbers is what a lookup finds.
pub proof fn the_first_of_a_number_is_found(m: DeviceModel, i: int, j: int)
    requires
        0 <= i < m.slots@.len(),
        0 <= j < m.slots@[i].submodules@.len(),
        forall|k: int| 0 <= k < i ==> (#[trigger] m.slots@[k]).slot != m.slots@[i].slot,
        forall|k: int|
            0 <= k < j ==> (#[trigger] m.slots@[i].submodules@[k]).subslot
                != m.slots@[i].submodules@[j].subslot,
    ensures
        m.spec_find(m.slots@[i].slot, m.slots@[i].submodules@[j].subslot) == Some(
            m.slots@[i].submodules@[j],
        ),
{
    lemma_slot_pos(m.slots@, m.slots@[i].slot, i);
    lemma_subslot_pos(m.slots@[i].submodules@, m.slots@[i].submodules@[j].subslot, j);
}

/// A device is known by its numbers: the last part of its object ends in the instance, the
/// device and the vendor, 16 bits each.
pub proof fn objects_name_the_device(m: &DeviceModel, u: Uuid)
    requires
        call_ensures(DeviceModel::object_uuid, (m,), u),
    ensures
        u.data1 == 0xDEA0_0000 && u.data2 == 0x6C97 && u.data3 == 0x11D1,
        u.data4 / 0x1_0000_0000_0000 == 0x8271,
        u.data4 / 0x1_0000_0000 % 0x1_0000 == m.instance,
        u.data4 / 0x1_0000 % 0x1_0000 == m.device_id,
        u.data4 % 0x1_0000 == m.vendor_id,
{
}

/// The sample application: behind the access point of slot 0 stand modules with one byte of
/// input, of output and of both, and one that echoes eight bytes. Slots are numbered in order,
/// and the submodule of a module has its number and `0x100`.
pub proof fn the_sample_has_five_slots(mac: MacAddr, m: DeviceModel)
    requires
        call_ensures(DeviceModel::pnet_sample, (mac,), m),
    ensures
        m.vendor_id == 1171 && m.device_id == 2 && m.instance == 1 && m.mac == mac,
        m.station_name@ == "rt-labs-dev"@ && m.max_alarm_data_length == 200,
        m.slots@.len() == 5,
        forall|i: int| 0 <= i < 5 ==> (#[trigger] m.slots@[i]).slot == i,
        m.slots@[0].module_ident == 1 && m.slots@[0].submodules@.len() == 3,
        forall|k: int|
            0 <= k < 3 ==> {
                let s = #[trigger] m.slots@[0].submodules@[k];
                s.submodule_ident == s.subslot && s.input_len == 0 && s.output_len == 0
            },
        m.slots@[0].submodules@[0].subslot == 1,
        m.slots@[0].submodules@[1].subslot == 32768,
        m.slots@[0].submodules@[2].subslot == 32769,
        forall|i: int|
            1 <= i < 5 ==> {
                let s = #[trigger] m.slots@[i];
                &&& s.submodules@.len() == 1
                &&& s.submodules@[0].subslot == 1
                &&& s.submodules@[0].submodule_ident == s.module_ident + 256
                &&& s.module_ident == (if i < 4 {
                    47 + i
                } else {
                    64
                })
                &&& s.submodules@[0].input_len == (if i == 4 {
                    8int
                } else if i == 2 {
                    0int
                } else {
                    1int
                })
                &&& s.submodules@[0].output_len == (if i == 4 {
                    8int
                } else if i == 1 {
                    0int
                } else {
                    1int
                })
            },
{
}

} // verus!
