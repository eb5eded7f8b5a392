//! Diagnoses: the active set and the notifications it leads to.

use pnio::alarm::{
    AlarmNotification, AlarmType, ChannelDiagnosis, ChannelProperties, Maintenance, Specifier,
    UserData, USI_CHANNEL_DIAG,
};
use pnio::cm::{DeviceModel, SlotModel, SubmoduleModel};
use pnio::config::{Direction, Slot};
use pnio::diag::{ChannelError, DiagStore, Diagnosis, Severity, SubmoduleInfo, WHOLE_SUBMODULE};
use pnio::eth::MacAddr;

fn store() -> DiagStore {
    DiagStore::new(vec![
        SubmoduleInfo {
            slot: Slot(1),
            subslot: 1,
            module_ident: 0x101,
            submodule_ident: 1,
            direction: Direction::Input,
        },
        SubmoduleInfo {
            slot: Slot(3),
            subslot: 1,
            module_ident: 0x103,
            submodule_ident: 1,
            direction: Direction::Output,
        },
    ])
}
fn d(slot: u16, ch: u16, e: ChannelError, s: Severity) -> Diagnosis {
    Diagnosis {
        slot: Slot(slot),
        channel: ch,
        error: e,
        severity: s,
        direction: Direction::Input,
    }
}

#[test]
fn every_name_round_trips_through_from_name() {
    assert!(ChannelError::names()
        .iter()
        .all(|&n| ChannelError::from_name(n).is_some()));
}
fn chan(n: &AlarmNotification) -> ChannelDiagnosis {
    match &n.data {
        UserData::Channel(c) => *c,
        _ => panic!(),
    }
}

#[test]
fn raise_builds_a_channel_diagnosis_appears() {
    let mut s = store();
    let n = s
        .raise(d(1, 0, ChannelError::LineBreak, Severity::Fault))
        .unwrap();
    assert_eq!(n.alarm_type, AlarmType::Diagnosis);
    assert_eq!(
        (n.slot, n.subslot, n.module_ident, n.submodule_ident),
        (1, 1, 0x101, 1)
    );
    assert_eq!(n.usi, USI_CHANNEL_DIAG);
    let c = chan(&n);
    assert_eq!(c.error_type, 0x0006);
    assert_eq!(
        c.properties,
        ChannelProperties {
            type_: 0,
            accumulative: false,
            maintenance: Maintenance::Fault,
            specifier: Specifier::Appears,
            direction: 1
        }
    );
    assert!(n.specifier.channel_diag && n.specifier.submodule_diag && n.specifier.ar_diag);
    assert!(s.problem_indicator());
}

#[test]
fn identical_raise_is_noop_and_severity_change_is_update() {
    let mut s = store();
    s.raise(d(1, 0, ChannelError::LineBreak, Severity::Fault));
    assert!(s
        .raise(d(1, 0, ChannelError::LineBreak, Severity::Fault))
        .is_none());
    let n = s
        .raise(d(
            1,
            0,
            ChannelError::LineBreak,
            Severity::MaintenanceRequired,
        ))
        .unwrap();
    assert_eq!(chan(&n).properties.maintenance, Maintenance::Required);
    assert!(
        !s.problem_indicator(),
        "maintenance-required is not a fault"
    );
    assert_eq!(s.active().len(), 1);
}

#[test]
fn clear_builds_disappears_and_clears_flags_when_last() {
    let mut s = store();
    s.raise(d(1, 0, ChannelError::LineBreak, Severity::Fault));
    s.raise(d(1, 0, ChannelError::Overload, Severity::Fault));
    let n = s.clear(Slot(1), 0, ChannelError::LineBreak).unwrap();
    assert_eq!(n.alarm_type, AlarmType::DiagnosisDisappears);
    assert_eq!(
        chan(&n).properties.specifier,
        Specifier::DisappearsOthersRemain
    );
    assert!(n.specifier.channel_diag);
    let n = s.clear(Slot(1), 0, ChannelError::Overload).unwrap();
    assert_eq!(chan(&n).properties.specifier, Specifier::Disappears);
    assert!(!n.specifier.channel_diag && !n.specifier.ar_diag);
    assert!(!s.problem_indicator());
    assert!(s.clear(Slot(1), 0, ChannelError::Overload).is_none());
}

#[test]
fn output_submodule_direction_and_replay() {
    let mut s = store();
    s.raise(d(3, WHOLE_SUBMODULE, ChannelError::Error, Severity::Fault));
    s.raise(d(
        1,
        2,
        ChannelError::ShortCircuit,
        Severity::MaintenanceDemanded,
    ));
    let r = s.replay();
    assert_eq!(r.len(), 2);
    let out = r.iter().find(|n| n.slot == 3).unwrap();
    assert_eq!(chan(out).properties.direction, 2);
    assert_eq!(chan(out).channel, WHOLE_SUBMODULE);
    assert!(r
        .iter()
        .all(|n| chan(n).properties.specifier == Specifier::Appears && n.specifier.ar_diag));
}

#[test]
fn from_model_derives_directions() {
    let sm = |i, o| SubmoduleModel {
        subslot: 1,
        submodule_ident: 1,
        input_len: i,
        output_len: o,
    };
    let m = DeviceModel {
        vendor_id: 0xFFFF,
        device_id: 1,
        instance: 1,
        station_name: "x".into(),
        mac: MacAddr([0; 6]),
        max_alarm_data_length: 200,
        slots: vec![
            SlotModel {
                slot: 0,
                module_ident: 1,
                submodules: vec![],
            },
            SlotModel {
                slot: 1,
                module_ident: 0x101,
                submodules: vec![sm(4, 0)],
            },
            SlotModel {
                slot: 2,
                module_ident: 0x102,
                submodules: vec![sm(0, 4)],
            },
            SlotModel {
                slot: 3,
                module_ident: 0x103,
                submodules: vec![sm(2, 2)],
            },
        ],
    };
    let s = DiagStore::from_model(&m);
    assert!(s.knows(Slot(1)) && s.knows(Slot(3)) && !s.knows(Slot(0)) && !s.knows(Slot(9)));
    let mut s = s;
    let n1 = s
        .raise(d(1, 0, ChannelError::Error, Severity::Fault))
        .unwrap();
    let n2 = s
        .raise(d(2, 0, ChannelError::Error, Severity::Fault))
        .unwrap();
    let n3 = s
        .raise(d(3, 0, ChannelError::Error, Severity::Fault))
        .unwrap();
    assert_eq!(
        (
            chan(&n1).properties.direction,
            chan(&n2).properties.direction,
            chan(&n3).properties.direction
        ),
        (1, 2, 3)
    );
}

#[test]
fn channel_error_names_and_codes() {
    assert_eq!(
        ChannelError::from_name("line-break"),
        Some(ChannelError::LineBreak)
    );
    assert_eq!(ChannelError::from_code(0x0009), Some(ChannelError::Error));
    assert_eq!(ChannelError::from_code(0x0100), None);
}

#[test]
fn clearing_undoes_raising_and_unknown_slots_raise_nothing() {
    let mut s = store();
    assert!(s.raise(d(7, 0, ChannelError::Error, Severity::Fault)).is_none());
    assert!(s.active().is_empty());
    s.raise(d(3, 1, ChannelError::Overload, Severity::Fault));
    s.raise(d(1, 1, ChannelError::Overload, Severity::Fault));
    let slots: Vec<u16> = s.active().iter().map(|d| d.slot.0).collect();
    assert_eq!(slots, vec![1, 3]);
    s.clear(Slot(3), 1, ChannelError::Overload);
    s.clear(Slot(1), 1, ChannelError::Overload);
    assert!(s.active().is_empty());
    assert!(s.replay().is_empty());
}

#[test]
fn codes_and_names_belong_together() {
    for name in ChannelError::names() {
        let e = ChannelError::from_name(name).unwrap();
        assert_eq!(ChannelError::from_code(e.code()), Some(e));
    }
    assert_eq!(ChannelError::from_name("no-such-error"), None);
    assert_eq!(ChannelError::LineBreak.code(), 6);
}
