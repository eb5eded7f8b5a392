//! Channel-diagnosis store: tracks the active `ChannelDiagnosis` state per submodule and
//! turns raise/clear events into `AlarmNotification`s (Diagnosis / DiagnosisDisappears) plus
//! the aggregate problem indicator. No I/O, no clock: the device loop drives it.

use std::collections::BTreeMap;

use vstd::prelude::*;

use crate::alarm::rta::{
    self, AlarmNotification, AlarmSpecifier, AlarmType, ChannelDiagnosis, ChannelProperties,
    Maintenance, Specifier, UserData, USI_CHANNEL_DIAG,
};
use crate::cm::model::{self, DeviceModel, SlotModel};
use crate::config::{self, Direction, Slot};
use crate::text;

verus! {

/// `ChannelDiagnosis.error_type` codes this store knows how to raise/clear (PROFINET's
/// "standard" channel error type range).
#[derive(Debug, Clone, Copy, PartialEq, Eq, Hash, PartialOrd, Ord, Structural)]
pub enum ChannelError {
    ShortCircuit,
    Undervoltage,
    Overvoltage,
    Overload,
    Overtemperature,
    LineBreak,
    UpperLimitExceeded,
    LowerLimitExceeded,
    Error,
}

impl ChannelError {
    /// The error's code on the wire.
    #[verifier::allow_in_spec]
    pub fn code(self) -> u16
        returns
            (match self {
                ChannelError::ShortCircuit => 0x0001u16,
                ChannelError::Undervoltage => 0x0002u16,
                ChannelError::Overvoltage => 0x0003u16,
                ChannelError::Overload => 0x0004u16,
                ChannelError::Overtemperature => 0x0005u16,
                ChannelError::LineBreak => 0x0006u16,
                ChannelError::UpperLimitExceeded => 0x0007u16,
                ChannelError::LowerLimitExceeded => 0x0008u16,
                ChannelError::Error => 0x0009u16,
            }),
    {
        match self {
            ChannelError::ShortCircuit => 0x0001,
            ChannelError::Undervoltage => 0x0002,
            ChannelError::Overvoltage => 0x0003,
            ChannelError::Overload => 0x0004,
            ChannelError::Overtemperature => 0x0005,
            ChannelError::LineBreak => 0x0006,
            ChannelError::UpperLimitExceeded => 0x0007,
            ChannelError::LowerLimitExceeded => 0x0008,
            ChannelError::Error => 0x0009,
        }
    }

    /// The error of a code.
    #[verifier::allow_in_spec]
    pub fn from_code(c: u16) -> Option<ChannelError>
        returns
            (match c {
                0x0001 => Some(ChannelError::ShortCircuit),
                0x0002 => Some(ChannelError::Undervoltage),
                0x0003 => Some(ChannelError::Overvoltage),
                0x0004 => Some(ChannelError::Overload),
                0x0005 => Some(ChannelError::Overtemperature),
                0x0006 => Some(ChannelError::LineBreak),
                0x0007 => Some(ChannelError::UpperLimitExceeded),
                0x0008 => Some(ChannelError::LowerLimitExceeded),
                0x0009 => Some(ChannelError::Error),
                _ => None::<ChannelError>,
            }),
    {
        match c {
            0x0001 => Some(ChannelError::ShortCircuit),
            0x0002 => Some(ChannelError::Undervoltage),
            0x0003 => Some(ChannelError::Overvoltage),
            0x0004 => Some(ChannelError::Overload),
            0x0005 => Some(ChannelError::Overtemperature),
            0x0006 => Some(ChannelError::LineBreak),
            0x0007 => Some(ChannelError::UpperLimitExceeded),
            0x0008 => Some(ChannelError::LowerLimitExceeded),
            0x0009 => Some(ChannelError::Error),
            _ => None,
        }
    }

    /// The error's name.
    pub open spec fn spec_name(self) -> Seq<char> {
        match self {
            ChannelError::ShortCircuit => "short-circuit"@,
            ChannelError::Undervoltage => "undervoltage"@,
            ChannelError::Overvoltage => "overvoltage"@,
            ChannelError::Overload => "overload"@,
            ChannelError::Overtemperature => "overtemperature"@,
            ChannelError::LineBreak => "line-break"@,
            ChannelError::UpperLimitExceeded => "upper-limit"@,
            ChannelError::LowerLimitExceeded => "lower-limit"@,
            ChannelError::Error => "error"@,
        }
    }

    /// Every name [`ChannelError::from_name`] accepts, in the order of the codes: the single
    /// source of truth for help/error text that needs to list them.
    pub fn names() -> (r: [&'static str; 9])
        ensures
            forall|e: ChannelError| (#[trigger] r@[e.code() - 1])@ == e.spec_name(),
    {
        [
            "short-circuit",
            "undervoltage",
            "overvoltage",
            "overload",
            "overtemperature",
            "line-break",
            "upper-limit",
            "lower-limit",
            "error",
        ]
    }

    /// Looks `s` up in [`ChannelError::names`].
    pub fn from_name(s: &str) -> (r: Option<ChannelError>)
        ensures
            match r {
                Some(e) => s@ == e.spec_name(),
                None => forall|e: ChannelError| #[trigger] e.spec_name() != s@,
            },
    {
        let names = Self::names();
        let mut i: usize = 0;
        while i < 9
            invariant
                i <= 9,
                forall|e: ChannelError| (#[trigger] names@[e.code() - 1])@ == e.spec_name(),
                forall|e: ChannelError| e.code() - 1 < i ==> #[trigger] e.spec_name() != s@,
            decreases 9 - i,
        {
            let e = Self::from_code(i as u16 + 1);
            proof {
                assert(e is Some && e->0.code() == i + 1);
                assert(names@[e->0.code() - 1]@ == e->0.spec_name());
            }
            if text::same_text(names[i], s) {
                return e;
            }
            proof {
                assert forall|f: ChannelError| f.code() - 1 < i + 1 implies #[trigger] f.spec_name()
                    != s@ by {
                    if f.code() - 1 == i {
                        assert(f == e->0);
                    }
                }
            }
            i = i + 1;
        }
        None
    }
}

/// Codes and errors correspond one to one.
pub proof fn channel_error_codes_round_trip(e: ChannelError, c: u16)
    ensures
        ChannelError::from_code(e.code()) == Some(e),
        ChannelError::from_code(c) == Some(e) ==> c == e.code(),
        1 <= e.code() <= 9,
{
}

/// No two errors share a name, so every name reads back as its error.
pub proof fn channel_error_names_are_distinct(a: ChannelError, b: ChannelError)
    requires
        a.spec_name() == b.spec_name(),
    ensures
        a == b,
{
    reveal_strlit("short-circuit");
    reveal_strlit("undervoltage");
    reveal_strlit("overvoltage");
    reveal_strlit("overload");
    reveal_strlit("overtemperature");
    reveal_strlit("line-break");
    reveal_strlit("upper-limit");
    reveal_strlit("lower-limit");
    reveal_strlit("error");
    let (x, y) = (a.spec_name(), b.spec_name());
    assert(x.len() == y.len());
    assert(x[0] == y[0] && x[1] == y[1]);
}

/// How severe a raised diagnosis is; maps to `ChannelProperties.maintenance`.
#[derive(Debug, Clone, Copy, PartialEq, Eq, Structural)]
pub enum Severity {
    Fault,
    MaintenanceRequired,
    MaintenanceDemanded,
}

/// `ChannelDiagnosis.channel` value meaning "the whole submodule", not one channel.
pub const WHOLE_SUBMODULE: u16 = 0x8000;

/// One channel diagnosis, as raised or cleared by the caller.
#[derive(Debug, Clone, Copy, PartialEq, Eq, Structural)]
pub struct Diagnosis {
    pub slot: Slot,
    pub channel: u16,
    pub error: ChannelError,
    pub severity: Severity,
    pub direction: Direction,
}

/// What the store needs to know about one submodule to build notifications.
#[derive(Debug, Clone, Copy, PartialEq, Eq, Structural)]
pub struct SubmoduleInfo {
    pub slot: Slot,
    pub subslot: u16,
    pub module_ident: u32,
    pub submodule_ident: u32,
    pub direction: Direction,
}

/// What identifies an active diagnosis, as one number: slot, channel, error code.
pub open spec fn key(slot: Slot, channel: u16, error: ChannelError) -> int {
    slot.0 * 0x1_0000_0000 + channel * 0x1_0000 + error.code()
}

fn key_of(slot: Slot, channel: u16, error: ChannelError) -> (k: u64)
    ensures
        k == key(slot, channel, error),
{
    (slot.0 as u64) * 0x1_0000_0000 + (channel as u64) * 0x1_0000 + error.code() as u64
}

impl Diagnosis {
    /// What identifies the diagnosis.
    pub open spec fn id(self) -> int {
        key(self.slot, self.channel, self.error)
    }
}

/// Different slots, channels or errors have different keys.
pub proof fn keys_identify_diagnoses(a: Diagnosis, b: Diagnosis)
    requires
        a.id() == b.id(),
    ensures
        a.slot == b.slot,
        a.channel == b.channel,
        a.error == b.error,
{
}

/// The diagnoses of a list by their keys.
pub open spec fn by_key(s: Seq<Diagnosis>) -> Map<int, Diagnosis>
    decreases s.len(),
{
    if s.len() == 0 {
        Map::empty()
    } else {
        by_key(s.drop_last()).insert(s.last().id(), s.last())
    }
}

/// Whether a list is in ascending key order, no key twice.
pub open spec fn ascending(s: Seq<Diagnosis>) -> bool {
    forall|i: int, j: int| 0 <= i < j < s.len() ==> (#[trigger] s[i]).id() < (#[trigger] s[j]).id()
}

/// An ascending list holds under each of its keys the diagnosis with that key, and nothing
/// else.
pub proof fn lemma_by_key(s: Seq<Diagnosis>)
    requires
        ascending(s),
    ensures
        forall|i: int|
            0 <= i < s.len() ==> by_key(s).contains_key((#[trigger] s[i]).id()) && by_key(
                s,
            )[s[i].id()] == s[i],
        forall|k: int| #[trigger]
            by_key(s).contains_key(k) ==> exists|i: int|
                0 <= i < s.len() && (#[trigger] s[i]).id() == k,
    decreases s.len(),
{
    if s.len() > 0 {
        let front = s.drop_last();
        lemma_by_key(front);
        assert forall|i: int| 0 <= i < s.len() implies by_key(s).contains_key(
            (#[trigger] s[i]).id(),
        ) && by_key(s)[s[i].id()] == s[i] by {
            if i < front.len() {
                assert(front[i] == s[i]);
                assert(s[i].id() < s[s.len() - 1].id());
            }
        }
        assert forall|k: int| #[trigger] by_key(s).contains_key(k) implies exists|i: int|
            0 <= i < s.len() && (#[trigger] s[i]).id() == k by {
            if k == s.last().id() {
                assert(s[s.len() - 1].id() == k);
            } else {
                assert(by_key(front).contains_key(k));
                let i = choose|i: int| 0 <= i < front.len() && (#[trigger] front[i]).id() == k;
                assert(s[i].id() == k);
            }
        }
    }
}

/// The diagnoses under a number, by their keys.
pub open spec fn by_number(m: Map<u64, Diagnosis>) -> Map<int, Diagnosis> {
    Map::new(|k: int| 0 <= k <= u64::MAX && m.contains_key(k as u64), |k: int| m[k as u64])
}

/// The diagnoses of a map in ascending key order.
pub open spec fn listed(m: Map<int, Diagnosis>) -> Seq<Diagnosis> {
    choose|s: Seq<Diagnosis>| ascending(s) && #[trigger] by_key(s) == m
}

/// What a list holds of a slot.
pub open spec fn info_pos(infos: Seq<SubmoduleInfo>, slot: Slot) -> int
    decreases infos.len(),
{
    if infos.len() == 0 {
        0
    } else if infos[0].slot == slot {
        0
    } else {
        1 + info_pos(infos.skip(1), slot)
    }
}

/// The first entry for a slot is where no earlier one is for it.
proof fn lemma_info_pos(infos: Seq<SubmoduleInfo>, slot: Slot, i: int)
    requires
        0 <= i <= infos.len(),
        i < infos.len() ==> infos[i].slot == slot,
        forall|j: int| 0 <= j < i ==> (#[trigger] infos[j]).slot != slot,
    ensures
        info_pos(infos, slot) == i,
    decreases infos.len(),
{
    if infos.len() > 0 && i > 0 {
        assert(infos[0].slot != slot);
        lemma_info_pos(infos.skip(1), slot, i - 1);
    }
}

/// The first submodule known for a slot.
pub open spec fn info_of(infos: Seq<SubmoduleInfo>, slot: Slot) -> Option<SubmoduleInfo> {
    let i = info_pos(infos, slot);
    if i < infos.len() {
        Some(infos[i])
    } else {
        None
    }
}

/// The submodule that a slot of a model adds: that of a slot above 0, at subslot 1.
pub open spec fn slot_info(s: SlotModel) -> Option<SubmoduleInfo> {
    let j = model::subslot_pos(s.submodules@, 1);
    if s.slot == 0 || j >= s.submodules@.len() {
        None
    } else {
        let sm = s.submodules@[j];
        Some(
            SubmoduleInfo {
                slot: Slot(s.slot),
                subslot: 1,
                module_ident: s.module_ident,
                submodule_ident: sm.submodule_ident,
                direction: config::direction_of(sm.input_len as int, sm.output_len as int),
            },
        )
    }
}

/// The submodules that the slots of a model add, in order.
pub open spec fn slot_infos(slots: Seq<SlotModel>) -> Seq<SubmoduleInfo>
    decreases slots.len(),
{
    if slots.len() == 0 {
        Seq::empty()
    } else {
        let front = slot_infos(slots.drop_last());
        match slot_info(slots.last()) {
            Some(info) => front.push(info),
            None => front,
        }
    }
}

/// The notification of a diagnosis while `active` diagnoses are held.
pub open spec fn notification(
    active: Map<int, Diagnosis>,
    info: SubmoduleInfo,
    d: Diagnosis,
    alarm_type: AlarmType,
    specifier: Specifier,
) -> rta::NotificationView {
    rta::NotificationView {
        alarm_type,
        api: 0,
        slot: info.slot.0,
        subslot: info.subslot,
        module_ident: info.module_ident,
        submodule_ident: info.submodule_ident,
        specifier: AlarmSpecifier {
            sequence: 0,
            channel_diag: has_slot(active, d.slot),
            manufacturer_diag: false,
            submodule_diag: has_slot(active, d.slot),
            ar_diag: active.dom() != Set::<int>::empty(),
        },
        usi: USI_CHANNEL_DIAG,
        data: rta::UserDataView::Channel(
            ChannelDiagnosis {
                channel: d.channel,
                properties: ChannelProperties {
                    type_: 0,
                    accumulative: false,
                    maintenance: match d.severity {
                        Severity::Fault => Maintenance::Fault,
                        Severity::MaintenanceRequired => Maintenance::Required,
                        Severity::MaintenanceDemanded => Maintenance::Demanded,
                    },
                    specifier,
                    direction: match info.direction {
                        Direction::Input => 1,
                        Direction::Output => 2,
                        Direction::InputOutput => 3,
                    },
                },
                error_type: d.error.code(),
            },
        ),
    }
}

/// Whether a diagnosis is active on a slot.
pub open spec fn has_slot(active: Map<int, Diagnosis>, slot: Slot) -> bool {
    exists|k: int| #[trigger] active.contains_key(k) && active[k].slot == slot
}

/// Whether a diagnosis is active on a channel of a slot.
pub open spec fn has_channel(active: Map<int, Diagnosis>, slot: Slot, channel: u16) -> bool {
    exists|k: int| #[trigger]
        active.contains_key(k) && active[k].slot == slot && active[k].channel == channel
}

/// Tracks the active channel diagnoses across a device's submodules and produces the
/// `AlarmNotification`s (and the aggregate problem indicator) they imply.
pub struct DiagStore {
    submodules: Vec<SubmoduleInfo>,
    /// By the number of [`key`].
    active: BTreeMap<u64, Diagnosis>,
}

impl View for DiagStore {
    type V = Map<int, Diagnosis>;

    closed spec fn view(&self) -> Map<int, Diagnosis> {
        by_number(self.active@)
    }
}

impl DiagStore {
    #[verifier::type_invariant]
    spec fn is_valid(self) -> bool {
        forall|k: u64| #[trigger]
            self.active@.contains_key(k) ==> self.active@[k].id() == k && info_of(
                self.submodules@,
                self.active@[k].slot,
            ) is Some
    }

    /// The submodules that diagnoses can be raised for.
    pub closed spec fn infos(self) -> Seq<SubmoduleInfo> {
        self.submodules@
    }

    /// The active diagnoses in ascending key order.
    pub closed spec fn list(self) -> Seq<Diagnosis> {
        listed(self@)
    }

    /// A store without active diagnoses.
    pub fn new(submodules: Vec<SubmoduleInfo>) -> (s: Self)
        ensures
            s@ == Map::<int, Diagnosis>::empty(),
            s.infos() == submodules@,
    {
        let s = DiagStore { submodules, active: BTreeMap::new() };
        assert(s@ =~= Map::<int, Diagnosis>::empty());
        s
    }

    /// Builds the store from a device's plug-and-play model: every slot `> 0` and its
    /// subslot-1 submodule, direction derived from that submodule's input/output lengths.
    pub fn from_model(model: &DeviceModel) -> (s: Self)
        ensures
            s@ == Map::<int, Diagnosis>::empty(),
            s.infos() == slot_infos(model.slots@),
    {
        let mut submodules: Vec<SubmoduleInfo> = Vec::new();
        let mut i: usize = 0;
        assert(model.slots@.take(0) =~= Seq::empty());
        while i < model.slots.len()
            invariant
                i <= model.slots@.len(),
                submodules@ == slot_infos(model.slots@.take(i as int)),
            decreases model.slots@.len() - i,
        {
            let info = info_for(&model.slots[i]);
            proof {
                assert(model.slots@.take(i + 1).drop_last() =~= model.slots@.take(i as int));
                assert(model.slots@.take(i + 1).last() == model.slots@[i as int]);
            }
            if let Some(x) = info {
                submodules.push(x);
            }
            i = i + 1;
        }
        assert(model.slots@.take(i as int) =~= model.slots@);
        DiagStore::new(submodules)
    }

    fn info(&self, slot: Slot) -> (r: Option<SubmoduleInfo>)
        ensures
            r == info_of(self.infos(), slot),
    {
        let mut i: usize = 0;
        while i < self.submodules.len()
            invariant
                i <= self.submodules@.len(),
                forall|j: int| 0 <= j < i ==> (#[trigger] self.submodules@[j]).slot != slot,
            decreases self.submodules@.len() - i,
        {
            if self.submodules[i].slot == slot {
                proof {
                    lemma_info_pos(self.submodules@, slot, i as int);
                }
                return Some(self.submodules[i]);
            }
            i = i + 1;
        }
        proof {
            lemma_info_pos(self.submodules@, slot, i as int);
        }
        None
    }

    /// Whether diagnoses can be raised for a slot.
    pub fn knows(&self, slot: Slot) -> (r: bool)
        ensures
            r == (info_of(self.infos(), slot) is Some),
    {
        self.info(slot).is_some()
    }

    /// True if any active diagnosis has `Severity::Fault`.
    pub fn problem_indicator(&self) -> (r: bool)
        ensures
            r == exists|k: int| #[trigger]
                self@.contains_key(k) && self@[k].severity == Severity::Fault,
    {
        let list = self.active();
        proof {
            lemma_by_key(list@);
        }
        let mut i: usize = 0;
        while i < list.len()
            invariant
                i <= list@.len(),
                ascending(list@),
                by_key(list@) == self@,
                forall|j: int| 0 <= j < i ==> (#[trigger] list@[j]).severity != Severity::Fault,
            decreases list@.len() - i,
        {
            if list[i].severity == Severity::Fault {
                proof {
                    lemma_by_key(list@);
                    assert(self@.contains_key(list@[i as int].id()));
                }
                return true;
            }
            i = i + 1;
        }
        false
    }

    /// The active diagnoses, ordered by slot, channel and error code.
    pub fn active(&self) -> (r: Vec<Diagnosis>)
        ensures
            r@ == self.list(),
            ascending(r@),
            by_key(r@) == self@,
    {
        proof {
            use_type_invariant(self);
        }
        let list = values_of(&self.active);
        proof {
            lemma_listed(self@, list@);
        }
        list
    }

    /// Whether a diagnosis is active on a slot, and on the given channel where one is given.
    fn any_on(&self, slot: Slot, channel: Option<u16>) -> (r: bool)
        ensures
            r == (match channel {
                Some(c) => has_channel(self@, slot, c),
                None => has_slot(self@, slot),
            }),
    {
        let list = self.active();
        proof {
            lemma_by_key(list@);
        }
        let mut i: usize = 0;
        while i < list.len()
            invariant
                i <= list@.len(),
                ascending(list@),
                by_key(list@) == self@,
                forall|j: int|
                    0 <= j < i ==> !((#[trigger] list@[j]).slot == slot && (channel is None
                        || list@[j].channel == channel->0)),
            decreases list@.len() - i,
        {
            let d = list[i];
            let on_channel = match channel {
                Some(c) => d.channel == c,
                None => true,
            };
            if d.slot == slot && on_channel {
                proof {
                    lemma_by_key(list@);
                    assert(self@.contains_key(list@[i as int].id()));
                }
                return true;
            }
            i = i + 1;
        }
        false
    }

    fn build_notification(
        &self,
        info: &SubmoduleInfo,
        d: &Diagnosis,
        alarm_type: AlarmType,
        specifier: Specifier,
    ) -> (n: AlarmNotification)
        ensures
            n@ == notification(self@, *info, *d, alarm_type, specifier),
    {
        let channel_diag = self.any_on(d.slot, None);
        let ar_diag = !self.active.is_empty();
        proof {
            lemma_emptiness(self.active@);
        }
        let maintenance = match d.severity {
            Severity::Fault => Maintenance::Fault,
            Severity::MaintenanceRequired => Maintenance::Required,
            Severity::MaintenanceDemanded => Maintenance::Demanded,
        };
        let direction: u8 = match info.direction {
            Direction::Input => 1,
            Direction::Output => 2,
            Direction::InputOutput => 3,
        };
        AlarmNotification {
            alarm_type,
            api: 0,
            slot: info.slot.0,
            subslot: info.subslot,
            module_ident: info.module_ident,
            submodule_ident: info.submodule_ident,
            specifier: AlarmSpecifier {
                sequence: 0,
                channel_diag,
                manufacturer_diag: false,
                submodule_diag: channel_diag,
                ar_diag,
            },
            usi: USI_CHANNEL_DIAG,
            data: UserData::Channel(
                ChannelDiagnosis {
                    channel: d.channel,
                    properties: ChannelProperties {
                        type_: 0,
                        accumulative: false,
                        maintenance,
                        specifier,
                        direction,
                    },
                    error_type: d.error.code(),
                },
            ),
        }
    }

    /// Raises (or updates the severity of) one channel diagnosis. `None` if an identical
    /// diagnosis (same slot/channel/error/severity) is already active, or if `d.slot` is not
    /// a submodule this store knows about.
    pub fn raise(&mut self, d: Diagnosis) -> (r: Option<AlarmNotification>)
        ensures
            final(self).infos() == old(self).infos(),
            match info_of(old(self).infos(), d.slot) {
                None => r is None && final(self)@ == old(self)@,
                Some(info) => {
                    let raised = Diagnosis { direction: info.direction, ..d };
                    if old(self)@.contains_key(d.id()) && old(self)@[d.id()].severity
                        == d.severity {
                        r is None && final(self)@ == old(self)@
                    } else {
                        &&& final(self)@ == old(self)@.insert(d.id(), raised)
                        &&& r is Some
                        &&& r->0@ == notification(
                            final(self)@,
                            info,
                            raised,
                            AlarmType::Diagnosis,
                            Specifier::Appears,
                        )
                    }
                },
            },
    {
        let info = match self.info(d.slot) {
            Some(info) => info,
            None => {
                return None;
            },
        };
        let raised = Diagnosis { direction: info.direction, ..d };
        let k: u64 = key_of(d.slot, d.channel, d.error);
        proof {
            use_type_invariant(&*self);
        }
        if let Some(known) = self.active.get(&k) {
            if known.severity == d.severity {
                return None;
            }
        }
        let mut active: BTreeMap<u64, Diagnosis> = BTreeMap::new();
        std::mem::swap(&mut active, &mut self.active);
        let _replaced = active.insert(k, raised);
        self.active = active;
        assert(self@ =~= old(self)@.insert(d.id(), raised));
        Some(self.build_notification(&info, &raised, AlarmType::Diagnosis, Specifier::Appears))
    }

    /// Clears one active channel diagnosis. `None` if it was not active.
    pub fn clear(&mut self, slot: Slot, channel: u16, error: ChannelError) -> (r: Option<
        AlarmNotification,
    >)
        ensures
            final(self).infos() == old(self).infos(),
            ({
                let k = key(slot, channel, error);
                if !old(self)@.contains_key(k) {
                    r is None && final(self)@ == old(self)@
                } else {
                    &&& final(self)@ == old(self)@.remove(k)
                    &&& info_of(old(self).infos(), slot) is Some
                    &&& r is Some
                    &&& r->0@ == notification(
                        final(self)@,
                        info_of(old(self).infos(), slot)->0,
                        old(self)@[k],
                        AlarmType::DiagnosisDisappears,
                        if has_channel(final(self)@, slot, channel) {
                            Specifier::DisappearsOthersRemain
                        } else {
                            Specifier::Disappears
                        },
                    )
                }
            }),
    {
        let k: u64 = key_of(slot, channel, error);
        proof {
            use_type_invariant(&*self);
        }
        let mut active: BTreeMap<u64, Diagnosis> = BTreeMap::new();
        std::mem::swap(&mut active, &mut self.active);
        let taken = active.remove(&k);
        self.active = active;
        let removed = match taken {
            Some(removed) => removed,
            None => {
                assert(self@ =~= old(self)@);
                return None;
            },
        };
        proof {
            keys_identify_diagnoses(removed, Diagnosis { slot, channel, error, ..removed });
        }
        assert(self@ =~= old(self)@.remove(k as int));
        let info = match self.info(slot) {
            Some(info) => info,
            None => {
                return None;
            },
        };
        let specifier = if self.any_on(slot, Some(channel)) {
            Specifier::DisappearsOthersRemain
        } else {
            Specifier::Disappears
        };
        Some(
            self.build_notification(&info, &removed, AlarmType::DiagnosisDisappears, specifier),
        )
    }

    /// One `Appears` notification per currently active diagnosis, for replaying state to a
    /// newly connected controller, ordered by slot, channel and error code.
    pub fn replay(&self) -> (r: Vec<AlarmNotification>)
        ensures
            r@.len() == self.list().len(),
            ascending(self.list()),
            by_key(self.list()) == self@,
            forall|i: int|
                0 <= i < r@.len() ==> {
                    &&& info_of(self.infos(), self.list()[i].slot) is Some
                    &&& (#[trigger] r@[i])@ == notification(
                        self@,
                        info_of(self.infos(), self.list()[i].slot)->0,
                        self.list()[i],
                        AlarmType::Diagnosis,
                        Specifier::Appears,
                    )
                },
    {
        proof {
            use_type_invariant(self);
        }
        let list = self.active();
        proof {
            lemma_by_key(list@);
        }
        let mut out: Vec<AlarmNotification> = Vec::new();
        let mut i: usize = 0;
        while i < list.len()
            invariant
                i <= list@.len(),
                out@.len() == i,
                list@ == self.list(),
                forall|j: int|
                    0 <= j < list@.len() ==> info_of(self.infos(), (#[trigger] list@[j]).slot)
                        is Some,
                forall|j: int|
                    0 <= j < i ==> (#[trigger] out@[j])@ == notification(
                        self@,
                        info_of(self.infos(), self.list()[j].slot)->0,
                        self.list()[j],
                        AlarmType::Diagnosis,
                        Specifier::Appears,
                    ),
            decreases list@.len() - i,
        {
            let d = list[i];
            assert(info_of(self.infos(), list@[i as int].slot) is Some);
            if let Some(info) = self.info(d.slot) {
                out.push(
                    self.build_notification(&info, &d, AlarmType::Diagnosis, Specifier::Appears),
                );
            }
            i = i + 1;
        }
        out
    }
}

/// Lists in ascending key order that hold the same are the same.
proof fn lemma_one_order(a: Seq<Diagnosis>, b: Seq<Diagnosis>)
    requires
        ascending(a),
        ascending(b),
        by_key(a) == by_key(b),
    ensures
        a == b,
    decreases a.len(),
{
    lemma_by_key(a);
    lemma_by_key(b);
    if a.len() == 0 {
        if b.len() > 0 {
            assert(by_key(b).contains_key(b[0].id()));
        }
        assert(a =~= b);
    } else {
        assert(by_key(b).contains_key(a[0].id()));
        let (x, y) = (a.last(), b.last());
        assert(a[a.len() - 1] == x && b[b.len() - 1] == y);
        assert(by_key(b).contains_key(x.id()));
        assert(by_key(a).contains_key(y.id()));
        let i = choose|i: int| 0 <= i < b.len() && (#[trigger] b[i]).id() == x.id();
        let j = choose|j: int| 0 <= j < a.len() && (#[trigger] a[j]).id() == y.id();
        if i < b.len() - 1 {
            assert(b[i].id() < b[b.len() - 1].id());
            assert(a[j].id() <= a[a.len() - 1].id());
        }
        if j < a.len() - 1 {
            assert(a[j].id() < a[a.len() - 1].id());
        }
        assert(x == y);
        lemma_without_last(a);
        lemma_without_last(b);
        lemma_one_order(a.drop_last(), b.drop_last());
        assert(a =~= a.drop_last().push(x));
        assert(b =~= b.drop_last().push(y));
    }
}

proof fn lemma_without_last(s: Seq<Diagnosis>)
    requires
        ascending(s),
        s.len() > 0,
    ensures
        ascending(s.drop_last()),
        by_key(s.drop_last()) == by_key(s).remove(s.last().id()),
{
    let front = s.drop_last();
    assert forall|i: int, j: int| 0 <= i < j < front.len() implies (#[trigger] front[i]).id() < (
    #[trigger] front[j]).id() by {
        assert(s[i].id() < s[j].id());
    }
    lemma_by_key(front);
    if by_key(front).contains_key(s.last().id()) {
        let i = choose|i: int| 0 <= i < front.len() && (#[trigger] front[i]).id() == s.last().id();
        assert(s[i].id() < s[s.len() - 1].id());
    }
    assert(by_key(front) =~= by_key(s).remove(s.last().id()));
}

/// The one list in ascending key order that holds what a map holds.
proof fn lemma_listed(m: Map<int, Diagnosis>, s: Seq<Diagnosis>)
    requires
        ascending(s),
        by_key(s) == m,
    ensures
        listed(m) == s,
{
    lemma_one_order(listed(m), s);
}

proof fn lemma_emptiness(m: Map<u64, Diagnosis>)
    ensures
        m.is_empty() == (by_number(m).dom() == Set::<int>::empty()),
{
    let n = by_number(m);
    if m.is_empty() {
        assert(n.dom() =~= Set::<int>::empty());
    } else {
        let k = choose|k: u64| m.contains_key(k);
        assert(exists|k: u64| m.contains_key(k)) by {
            if forall|k: u64| !m.contains_key(k) {
                assert(m =~= Map::<u64, Diagnosis>::empty());
            }
        }
        assert(n.dom().contains(k as int));
    }
}

/// Increasing numbers increase.
proof fn lemma_increasing(keys: Seq<u64>, i: int, j: int)
    requires
        vstd::std_specs::btree::increasing_seq(keys),
        0 <= i < j < keys.len(),
    ensures
        keys[i] < keys[j],
{
    broadcast use {
        vstd::std_specs::btree::group_btree_axioms,
        vstd::laws_cmp::group_laws_cmp,
    };

    assert(vstd::laws_cmp::obeys_cmp::<u64>());
    assert(vstd::std_specs::cmp::OrdSpec::cmp_spec(&keys[i], &keys[j]) is Less);
}

/// What stands under ascending keys, in their order.
proof fn lemma_values(m: Map<u64, Diagnosis>, keys: Seq<u64>, list: Seq<Diagnosis>)
    requires
        forall|k: u64| #[trigger] m.contains_key(k) ==> m[k].id() == k,
        vstd::std_specs::btree::increasing_seq(keys),
        keys.to_set() == m.dom(),
        list == keys.map_values(|k: u64| m[k]),
    ensures
        ascending(list),
        by_key(list) == by_number(m),
{
    assert forall|i: int| 0 <= i < keys.len() implies m.contains_key(#[trigger] keys[i])
        && list[i].id() == keys[i] by {
        assert(keys.to_set().contains(keys[i]));
    }
    assert forall|i: int, j: int| 0 <= i < j < list.len() implies (#[trigger] list[i]).id() < (
    #[trigger] list[j]).id() by {
        lemma_increasing(keys, i, j);
    }
    lemma_by_key(list);
    let (a, b) = (by_key(list), by_number(m));
    assert forall|k: int| #[trigger] a.contains_key(k) == b.contains_key(k) && (a.contains_key(k)
        ==> a[k] == b[k]) by {
        if a.contains_key(k) {
            let i = choose|i: int| 0 <= i < list.len() && (#[trigger] list[i]).id() == k;
            assert(keys[i] == k);
            assert(a[list[i].id()] == list[i]);
        }
        if b.contains_key(k) {
            assert(keys.to_set().contains(k as u64));
            let i = choose|i: int| 0 <= i < keys.len() && keys[i] == k as u64;
            assert(a.contains_key(list[i].id()));
        }
    }
    assert(a =~= b);
}

/// The diagnoses of a map in ascending key order.
fn values_of(m: &BTreeMap<u64, Diagnosis>) -> (list: Vec<Diagnosis>)
    requires
        forall|k: u64| #[trigger] m@.contains_key(k) ==> m@[k].id() == k,
    ensures
        ascending(list@),
        by_key(list@) == by_number(m@),
{
    let mut list: Vec<Diagnosis> = Vec::new();
    let values = m.values();
    let ghost keys = choose|keys: Seq<u64>|
        {
            &&& vstd::std_specs::btree::increasing_seq(keys)
            &&& keys.to_set() == m@.dom()
            &&& keys.no_duplicates()
            &&& vstd::std_specs::iter::IteratorSpec::remaining(&values) == keys.map(
                |i: int, k| &m@[k],
            )
        };
    for d in it: values
        invariant
            list@.len() == it.index(),
            forall|j: int| 0 <= j < list@.len() ==> list@[j] == *it.seq()[j],
    {
        list.push(*d);
    }
    proof {
        assert(list@ =~= keys.map_values(|k: u64| m@[k]));
        lemma_values(m@, keys, list@);
    }
    list
}

/// What a slot of a model adds to the store.
fn info_for(s: &SlotModel) -> (r: Option<SubmoduleInfo>)
    ensures
        r == slot_info(*s),
{
    if s.slot == 0 {
        return None;
    }
    let mut j: usize = 0;
    while j < s.submodules.len()
        invariant
            j <= s.submodules@.len(),
            s.slot != 0,
            forall|k: int| 0 <= k < j ==> (#[trigger] s.submodules@[k]).subslot != 1,
        decreases s.submodules@.len() - j,
    {
        let sm = s.submodules[j];
        if sm.subslot == 1 {
            proof {
                model::lemma_subslot_pos(s.submodules@, 1, j as int);
            }
            let direction = if sm.output_len == 0 && sm.input_len > 0 {
                Direction::Input
            } else if sm.input_len == 0 && sm.output_len > 0 {
                Direction::Output
            } else {
                Direction::InputOutput
            };
            return Some(
                SubmoduleInfo {
                    slot: Slot(s.slot),
                    subslot: 1,
                    module_ident: s.module_ident,
                    submodule_ident: sm.submodule_ident,
                    direction,
                },
            );
        }
        j = j + 1;
    }
    proof {
        model::lemma_subslot_pos(s.submodules@, 1, j as int);
    }
    None
}

/// Clearing a diagnosis that was raised anew gives back what was active before.
pub proof fn clearing_undoes_raising(active: Map<int, Diagnosis>, d: Diagnosis)
    requires
        !active.contains_key(d.id()),
    ensures
        active.insert(d.id(), d).remove(d.id()) == active,
{
    assert(active.insert(d.id(), d).remove(d.id()) =~= active);
}

/// A raised diagnosis sets all flags of its notification; the disappearance of the last one
/// clears them.
pub proof fn flags_follow_the_active_set(
    active: Map<int, Diagnosis>,
    info: SubmoduleInfo,
    d: Diagnosis,
    alarm_type: AlarmType,
    specifier: Specifier,
)
    ensures
        ({
            let s = notification(
                active.insert(d.id(), d),
                info,
                d,
                alarm_type,
                specifier,
            ).specifier;
            s.channel_diag && s.submodule_diag && s.ar_diag
        }),
        ({
            let s = notification(
                Map::empty(),
                info,
                d,
                alarm_type,
                specifier,
            ).specifier;
            !s.channel_diag && !s.submodule_diag && !s.ar_diag
        }),
{
    let after = active.insert(d.id(), d);
    assert(after.contains_key(d.id()) && after[d.id()].slot == d.slot);
    assert(after.dom().contains(d.id()));
    assert(Map::<int, Diagnosis>::empty().dom() =~= Set::<int>::empty());
}

/// Every diagnosis notification reads back from its bytes, and its block takes 30 bytes
/// whatever is diagnosed.
pub proof fn diagnosis_notifications_are_canonical(
    active: Map<int, Diagnosis>,
    info: SubmoduleInfo,
    d: Diagnosis,
    specifier: Specifier,
)
    ensures
        notification(active, info, d, AlarmType::Diagnosis, specifier).is_canonical(),
        notification(active, info, d, AlarmType::DiagnosisDisappears, specifier).is_canonical(),
        notification(active, info, d, AlarmType::Diagnosis, specifier).spec_bytes().len() + 2
            == 30,
        notification(active, info, d, AlarmType::DiagnosisDisappears, specifier).spec_bytes().len()
            + 2 == 30,
{
    rta::lemma_fixed_len(notification(active, info, d, AlarmType::Diagnosis, specifier));
    rta::lemma_fixed_len(
        notification(active, info, d, AlarmType::DiagnosisDisappears, specifier),
    );
}

/// A notification tells of its diagnosis what was raised: the severity as the maintenance state,
/// no milder and no graver, the channel, the error under its code, and whether it came or went;
/// and of the submodule its place, its identity and its direction.
pub proof fn a_notification_tells_its_diagnosis(
    active: Map<int, Diagnosis>,
    info: SubmoduleInfo,
    d: Diagnosis,
    alarm_type: AlarmType,
    specifier: Specifier,
)
    ensures
        ({
            let n = notification(active, info, d, alarm_type, specifier);
            &&& n.alarm_type == alarm_type
            &&& n.api == 0
            &&& n.slot == info.slot.0
            &&& n.subslot == info.subslot
            &&& n.module_ident == info.module_ident
            &&& n.submodule_ident == info.submodule_ident
            &&& n.usi == 0x8000
            &&& n.data matches rta::UserDataView::Channel(c)
            &&& c.channel == d.channel
            &&& c.error_type == d.error.code()
            &&& c.properties.type_ == 0
            &&& !c.properties.accumulative
            &&& c.properties.specifier == specifier
            &&& c.properties.maintenance == Maintenance::Fault <==> d.severity == Severity::Fault
            &&& c.properties.maintenance == Maintenance::Required <==> d.severity
                == Severity::MaintenanceRequired
            &&& c.properties.maintenance == Maintenance::Demanded <==> d.severity
                == Severity::MaintenanceDemanded
            &&& c.properties.direction == 1 <==> info.direction == Direction::Input
            &&& c.properties.direction == 2 <==> info.direction == Direction::Output
            &&& c.properties.direction == 3 <==> info.direction == Direction::InputOutput
        }),
{
}

/// The flags of a notification say what is active: on its slot, and anywhere.
pub proof fn the_flags_say_what_is_active(
    active: Map<int, Diagnosis>,
    info: SubmoduleInfo,
    d: Diagnosis,
    alarm_type: AlarmType,
    specifier: Specifier,
)
    ensures
        ({
            let s = notification(active, info, d, alarm_type, specifier).specifier;
            let on_slot = exists|k: int| #[trigger] active.contains_key(k) && active[k].slot == d.slot;
            &&& s.sequence == 0
            &&& s.channel_diag == on_slot
            &&& s.submodule_diag == on_slot
            &&& !s.manufacturer_diag
            &&& s.ar_diag == exists|k: int| #[trigger] active.contains_key(k)
        }),
{
    if exists|k: int| #[trigger] active.contains_key(k) {
        let k = choose|k: int| #[trigger] active.contains_key(k);
        assert(active.dom().contains(k));
    } else {
        assert(active.dom() =~= Set::<int>::empty());
    }
}

/// Two notifications that differ in what they tell are of different diagnoses: nothing of slot,
/// channel, error and severity is lost on the way.
pub proof fn different_diagnoses_are_told_apart(
    active: Map<int, Diagnosis>,
    info: SubmoduleInfo,
    a: Diagnosis,
    b: Diagnosis,
    alarm_type: AlarmType,
    specifier: Specifier,
)
    requires
        notification(active, info, a, alarm_type, specifier).data == notification(
            active,
            info,
            b,
            alarm_type,
            specifier,
        ).data,
    ensures
        a.channel == b.channel,
        a.error == b.error,
        a.severity == b.severity,
{
    channel_error_codes_round_trip(a.error, b.error.code());
    channel_error_codes_round_trip(b.error, a.error.code());
}

/// The codes of the errors on the wire, and their names.
pub proof fn errors_have_their_codes_and_names(e: ChannelError)
    ensures
        e == ChannelError::ShortCircuit ==> e.code() == 1 && e.spec_name() == "short-circuit"@,
        e == ChannelError::Undervoltage ==> e.code() == 2 && e.spec_name() == "undervoltage"@,
        e == ChannelError::Overvoltage ==> e.code() == 3 && e.spec_name() == "overvoltage"@,
        e == ChannelError::Overload ==> e.code() == 4 && e.spec_name() == "overload"@,
        e == ChannelError::Overtemperature ==> e.code() == 5 && e.spec_name()
            == "overtemperature"@,
        e == ChannelError::LineBreak ==> e.code() == 6 && e.spec_name() == "line-break"@,
        e == ChannelError::UpperLimitExceeded ==> e.code() == 7 && e.spec_name()
            == "upper-limit"@,
        e == ChannelError::LowerLimitExceeded ==> e.code() == 8 && e.spec_name()
            == "lower-limit"@,
        e == ChannelError::Error ==> e.code() == 9 && e.spec_name() == "error"@,
{
}

/// What a slot of a model adds to the store: nothing for the access point, else its submodule at
/// subslot 1, with the direction in which it carries data.
pub proof fn slots_add_their_submodules(s: SlotModel, j: int)
    requires
        0 <= j < s.submodules@.len(),
        s.submodules@[j].subslot == 1,
        forall|k: int| 0 <= k < j ==> (#[trigger] s.submodules@[k]).subslot != 1,
    ensures
        s.slot == 0 ==> slot_info(s) is None,
        s.slot != 0 ==> {
            let sm = s.submodules@[j];
            &&& slot_info(s) matches Some(info)
            &&& info.slot == Slot(s.slot)
            &&& info.subslot == 1
            &&& info.module_ident == s.module_ident
            &&& info.submodule_ident == sm.submodule_ident
            &&& info.direction == Direction::Input <==> sm.input_len > 0 && sm.output_len == 0
            &&& info.direction == Direction::Output <==> sm.input_len == 0 && sm.output_len > 0
        },
{
    model::lemma_subslot_pos(s.submodules@, 1, j);
}

/// A slot is known by the first submodule of its number, and unknown where there is none.
pub proof fn a_slot_is_known_by_its_first_submodule(infos: Seq<SubmoduleInfo>, slot: Slot)
    ensures
        match info_of(infos, slot) {
            Some(info) => exists|i: int|
                {
                    &&& 0 <= i < infos.len()
                    &&& #[trigger] infos[i] == info
                    &&& info.slot == slot
                    &&& forall|k: int| 0 <= k < i ==> (#[trigger] infos[k]).slot != slot
                },
            None => forall|i: int| 0 <= i < infos.len() ==> (#[trigger] infos[i]).slot != slot,
        },
    decreases infos.len(),
{
    if infos.len() > 0 {
        if infos[0].slot != slot {
            let rest = infos.skip(1);
            a_slot_is_known_by_its_first_submodule(rest, slot);
            lemma_info_found(rest, slot);
            match info_of(infos, slot) {
                Some(info) => {
                    let i = choose|i: int|
                        {
                            &&& 0 <= i < rest.len()
                            &&& #[trigger] rest[i] == info
                            &&& info.slot == slot
                            &&& forall|k: int| 0 <= k < i ==> (#[trigger] rest[k]).slot != slot
                        };
                    assert(infos[i + 1] == info);
                    assert forall|k: int| 0 <= k < i + 1 implies (#[trigger] infos[k]).slot
                        != slot by {
                        if k > 0 {
                            assert(rest[k - 1] == infos[k]);
                        }
                    }
                },
                None => {
                    assert forall|i: int| 0 <= i < infos.len() implies (#[trigger] infos[i]).slot
                        != slot by {
                        if i > 0 {
                            assert(rest[i - 1] == infos[i]);
                        }
                    }
                },
            }
        } else {
            assert(infos[0] == infos[0]);
        }
    }
}

proof fn lemma_info_found(infos: Seq<SubmoduleInfo>, slot: Slot)
    ensures
        0 <= info_pos(infos, slot) <= infos.len(),
    decreases infos.len(),
{
    if infos.len() > 0 && infos[0].slot != slot {
        lemma_info_found(infos.skip(1), slot);
    }
}

/// The submodules of a model are those of its slots, one slot after the other.
pub proof fn submodules_follow_their_slots(a: Seq<SlotModel>, b: Seq<SlotModel>, s: SlotModel)
    ensures
        slot_infos(a + b) == slot_infos(a) + slot_infos(b),
        slot_infos(Seq::empty()).len() == 0,
        slot_info(s) is None ==> slot_infos(seq![s]).len() == 0,
        slot_info(s) matches Some(info) ==> slot_infos(seq![s]) == seq![info],
    decreases b.len(),
{
    assert(seq![s].drop_last() =~= Seq::empty());
    reveal_with_fuel(slot_infos, 2);
    if b.len() == 0 {
        assert(a + b =~= a);
        assert(slot_infos(a) + slot_infos(b) =~= slot_infos(a));
    } else {
        submodules_follow_their_slots(a, b.drop_last(), s);
        assert((a + b).drop_last() =~= a + b.drop_last());
        assert(slot_infos(a + b) =~= slot_infos(a) + slot_infos(b));
    }
}

} // verus!
