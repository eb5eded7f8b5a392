//! The alarm PDU codec against frames as they stand on the wire.

use pnio::alarm::{
    build_frame, is_alarm_frame, parse_frame, AlarmAck, AlarmNotification, AlarmSpecifier,
    AlarmType, ChannelDiagnosis, ChannelProperties, Maintenance, PduType, Priority, RtaBody,
    RtaData, RtaError, RtaHeader, RtaPdu, Specifier, UserData, USI_CHANNEL_DIAG,
    USI_EXT_CHANNEL_DIAG,
};
use pnio::cm::PnioStatus;
use pnio::eth::MacAddr;

const DEV: MacAddr = MacAddr([0x8c, 0xf3, 0x19, 0xcd, 0x19, 0xf8]);
const CPU: MacAddr = MacAddr([0xec, 0x1c, 0x5d, 0x61, 0xe7, 0x3c]);

fn frame(dst: MacAddr, src: MacAddr, high: bool, kind: u8, flags: u8, seqs: (u16, u16), var: &[u8]) -> Vec<u8> {
    let mut f = Vec::new();
    f.extend_from_slice(&dst.0);
    f.extend_from_slice(&src.0);
    f.extend_from_slice(&[0x81, 0x00, if high { 0xc0 } else { 0xa0 }, 0x00, 0x88, 0x92]);
    f.extend_from_slice(&[if high { 0xfc } else { 0xfe }, 0x01]);
    f.extend_from_slice(&[0, 0, 0, 0, kind, flags]);
    f.extend_from_slice(&seqs.0.to_be_bytes());
    f.extend_from_slice(&seqs.1.to_be_bytes());
    f.extend_from_slice(&(var.len() as u16).to_be_bytes());
    f.extend_from_slice(var);
    f
}

fn notification(high: bool, alarm_type: u16, specifier: u16, usi: u16, data: &[u8]) -> Vec<u8> {
    let mut b = vec![0x00, if high { 0x01 } else { 0x02 }];
    b.extend_from_slice(&(24 + data.len() as u16).to_be_bytes());
    b.extend_from_slice(&[1, 0]);
    b.extend_from_slice(&alarm_type.to_be_bytes());
    b.extend_from_slice(&[0, 0, 0, 0, 0, 1, 0, 1, 0, 0, 0, 0x30, 0, 0, 0x01, 0x30]);
    b.extend_from_slice(&specifier.to_be_bytes());
    b.extend_from_slice(&usi.to_be_bytes());
    b.extend_from_slice(data);
    b
}

fn golden_alarm(name: &str) -> Vec<u8> {
    let ack = |high: bool, alarm_type: u8| {
        vec![
            0x80, if high { 0x01 } else { 0x02 }, 0, 18, 1, 0, 0, alarm_type, 0, 0, 0, 0, 0, 1, 0, 1, 0, 0,
            0, 0, 0, 0,
        ]
    };
    let mut f = match name {
        "alarm_process_notif" => frame(
            CPU,
            DEV,
            true,
            0x11,
            0x11,
            (0xffff, 0xfffe),
            &notification(true, 2, 0, 0x0010, &[1]),
        ),
        "alarm_diag_notif" => frame(
            CPU,
            DEV,
            false,
            0x11,
            0x11,
            (0xffff, 0xfffe),
            &notification(false, 1, 0xa800, 0x8002, &[0, 4, 0x28, 0x01, 0, 1, 0, 0, 0, 0, 0, 0]),
        ),
        "alarm_diag_usi_disappears" => frame(
            CPU,
            DEV,
            false,
            0x11,
            0x11,
            (4, 3),
            &notification(false, 0x0c, 5, 0x1234, &[0x11, 0x22, 0x33]),
        ),
        "alarm_diag_std_remove" => frame(
            CPU,
            DEV,
            false,
            0x11,
            0x11,
            (3, 2),
            &notification(false, 0x0c, 4, 0x8000, &[0, 4, 0x30, 0x01, 0, 1]),
        ),
        "alarm_diag_update_appears" => frame(
            CPU,
            DEV,
            false,
            0x11,
            0x11,
            (1, 0),
            &notification(false, 1, 0xa802, 0x8002, &[0, 4, 0x28, 0x01, 0, 1, 0, 0, 0, 0, 0, 7]),
        ),
        "alarm_diag_update_others_remain" => frame(
            CPU,
            DEV,
            false,
            0x11,
            0x11,
            (2, 1),
            &notification(false, 0x0c, 0xa803, 0x8002, &[0, 4, 0x38, 0x01, 0, 1, 0, 0, 0, 0, 0, 0]),
        ),
        "alarm_ack_rta_high_cpu" => frame(DEV, CPU, true, 0x13, 0x01, (0xfffe, 0xffff), &[]),
        "alarm_ack_high_cpu" => frame(DEV, CPU, true, 0x11, 0x11, (0xffff, 0xffff), &ack(true, 2)),
        "alarm_ack_rta_high_dev" => frame(CPU, DEV, true, 0x13, 0x01, (0xffff, 0xffff), &[]),
        "alarm_ack_rta_low_dev" => frame(CPU, DEV, false, 0x13, 0x01, (0xffff, 0xffff), &[]),
        "alarm_err_rta_dev" => frame(CPU, DEV, false, 0x14, 0x01, (6, 5), &[0xcf, 0x81, 0xfd, 0x00]),
        "alarm_err_rta_cpu" => frame(DEV, CPU, false, 0x14, 0x01, (5, 6), &[0xcf, 0x81, 0xfd, 0x0b]),
        "alarm_err_rta_cpu_removed" => {
            frame(DEV, CPU, false, 0x14, 0x01, (0xfffe, 0xfffe), &[0xcf, 0x81, 0xfd, 0x11])
        }
        "alarm_err_rta_dev_removed_reply" => {
            frame(CPU, DEV, false, 0x14, 0x01, (0xffff, 0xfffe), &[0xcf, 0x81, 0xfd, 0x11])
        }
        _ => panic!("no frame {name}"),
    };
    // what comes from the wire is padded
    if f[..6] == DEV.0 && f.len() < 60 {
        f.resize(60, 0);
    }
    f
}

#[test]
fn process_notification_parses_and_rebuilds_byte_exact() {
    let g = golden_alarm("alarm_process_notif");
    let pdu = parse_frame(&g).unwrap();
    assert_eq!(pdu.priority, Priority::High);
    assert_eq!(
        pdu.header,
        RtaHeader {
            dst_ref: 0,
            src_ref: 0,
            pdu_type: PduType::Data,
            tack: true,
            send_seq: 0xFFFF,
            ack_seq: 0xFFFE
        }
    );
    let RtaBody::Data(RtaData::Notification(n)) = &pdu.body else {
        panic!("not a notification")
    };
    assert_eq!(n.alarm_type, AlarmType::Process);
    assert_eq!((n.api, n.slot, n.subslot), (0, 1, 1));
    assert_eq!((n.module_ident, n.submodule_ident), (0x30, 0x130));
    assert_eq!(
        n.specifier,
        AlarmSpecifier {
            sequence: 0,
            channel_diag: false,
            manufacturer_diag: false,
            submodule_diag: false,
            ar_diag: false
        }
    );
    assert_eq!(n.usi, 0x0010);
    assert_eq!(n.data, UserData::Raw(vec![0x01]));
    assert_eq!(build_frame(CPU, DEV, &pdu), g);
}

#[test]
fn diagnosis_notification_parses_ext_channel_and_rebuilds() {
    let g = golden_alarm("alarm_diag_notif");
    let pdu = parse_frame(&g).unwrap();
    assert_eq!(pdu.priority, Priority::Low);
    let RtaBody::Data(RtaData::Notification(n)) = &pdu.body else {
        panic!()
    };
    assert_eq!(n.alarm_type, AlarmType::Diagnosis);
    assert_eq!(
        n.specifier,
        AlarmSpecifier {
            sequence: 0,
            channel_diag: true,
            manufacturer_diag: false,
            submodule_diag: true,
            ar_diag: true
        }
    );
    assert_eq!(n.usi, USI_EXT_CHANNEL_DIAG);
    let UserData::ExtChannel(d) = &n.data else {
        panic!()
    };
    assert_eq!(d.channel, 4);
    assert_eq!(
        d.properties,
        ChannelProperties {
            type_: 1,
            accumulative: false,
            maintenance: Maintenance::Fault,
            specifier: Specifier::Appears,
            direction: 1
        }
    );
    assert_eq!(d.properties.to_u16(), 0x2801);
    assert_eq!(d.error_type, 0x0001);
    assert_eq!((d.ext_error_type, d.ext_add_value), (0, 0));
    assert_eq!(build_frame(CPU, DEV, &pdu), g);
}

#[test]
fn channel_properties_bit_fields_round_trip() {
    for raw in [0x2801u16, 0x3801, 0x2001, 0x0000, 0x6A00] {
        assert_eq!(ChannelProperties::from_u16(raw).to_u16(), raw);
    }
    assert_eq!(
        ChannelProperties::from_u16(0x3801).specifier,
        Specifier::DisappearsOthersRemain
    );
    assert_eq!(
        ChannelProperties::from_u16(0x2001).specifier,
        Specifier::AllDisappear
    );
}

#[test]
fn cpu_ack_rta_and_alarm_ack_parse() {
    let ack = parse_frame(&golden_alarm("alarm_ack_rta_high_cpu")).unwrap();
    assert_eq!(ack.body, RtaBody::Ack);
    assert_eq!(
        (ack.header.send_seq, ack.header.ack_seq, ack.header.tack),
        (0xFFFE, 0xFFFF, false)
    );
    let aa = parse_frame(&golden_alarm("alarm_ack_high_cpu")).unwrap();
    let RtaBody::Data(RtaData::Ack(a)) = &aa.body else {
        panic!()
    };
    assert_eq!(a.alarm_type, AlarmType::Process);
    assert_eq!((a.slot, a.subslot), (1, 1));
    assert_eq!(a.status, PnioStatus::ok());
    assert_eq!((aa.header.send_seq, aa.header.ack_seq), (0xFFFF, 0xFFFF));
}

#[test]
fn our_ack_rta_rebuilds_byte_exact() {
    for name in ["alarm_ack_rta_high_dev", "alarm_ack_rta_low_dev"] {
        let g = golden_alarm(name);
        let pdu = parse_frame(&g).unwrap();
        assert_eq!(pdu.body, RtaBody::Ack);
        assert_eq!(build_frame(CPU, DEV, &pdu), g, "{name}");
    }
}

#[test]
fn err_rta_both_ways() {
    let dev = parse_frame(&golden_alarm("alarm_err_rta_dev")).unwrap();
    assert_eq!(
        dev.body,
        RtaBody::Error(PnioStatus::new(0xCF, 0x81, 0xFD, 0x00))
    );
    assert_eq!((dev.header.send_seq, dev.header.ack_seq), (6, 5));
    assert_eq!(build_frame(CPU, DEV, &dev), golden_alarm("alarm_err_rta_dev"));
    let cpu = parse_frame(&golden_alarm("alarm_err_rta_cpu")).unwrap();
    assert_eq!(
        cpu.body,
        RtaBody::Error(PnioStatus::new(0xCF, 0x81, 0xFD, 0x0B))
    );
    let removed = parse_frame(&golden_alarm("alarm_err_rta_cpu_removed")).unwrap();
    assert_eq!(
        removed.body,
        RtaBody::Error(PnioStatus::new(0xCF, 0x81, 0xFD, 0x11))
    );
    assert_eq!(
        (removed.header.send_seq, removed.header.ack_seq),
        (0xFFFE, 0xFFFE)
    );
    let removed_reply = parse_frame(&golden_alarm("alarm_err_rta_dev_removed_reply")).unwrap();
    assert_eq!(removed_reply.priority, Priority::Low);
    assert_eq!(
        removed_reply.body,
        RtaBody::Error(PnioStatus::new(0xCF, 0x81, 0xFD, 0x11))
    );
    assert_eq!(
        (removed_reply.header.send_seq, removed_reply.header.ack_seq),
        (0xFFFF, 0xFFFE)
    );
    assert_eq!(
        build_frame(CPU, DEV, &removed_reply),
        golden_alarm("alarm_err_rta_dev_removed_reply")
    );
}

#[test]
fn disappears_and_std_remove_goldens_rebuild() {
    for name in [
        "alarm_diag_usi_disappears",
        "alarm_diag_std_remove",
        "alarm_diag_update_appears",
        "alarm_diag_update_others_remain",
    ] {
        let g = golden_alarm(name);
        let pdu = parse_frame(&g).unwrap();
        assert_eq!(build_frame(CPU, DEV, &pdu), g, "{name}");
    }
    let RtaBody::Data(RtaData::Notification(n)) =
        parse_frame(&golden_alarm("alarm_diag_usi_disappears"))
            .unwrap()
            .body
    else {
        panic!()
    };
    assert_eq!(n.alarm_type, AlarmType::DiagnosisDisappears);
    assert_eq!(n.usi, 0x1234);
    assert_eq!(n.specifier.sequence, 5);
}

#[test]
fn is_alarm_frame_discriminates() {
    assert!(is_alarm_frame(&golden_alarm("alarm_process_notif")));
    // an IPv4 frame
    let mut ip = vec![0u8; 60];
    ip[12] = 0x08;
    assert!(!is_alarm_frame(&ip));
    // a DCP Set request
    let mut dcp = golden_alarm("alarm_process_notif");
    dcp[18] = 0xfe;
    dcp[19] = 0xfd;
    assert!(!is_alarm_frame(&dcp));
}

#[test]
fn malformed_frames_are_errors_not_panics() {
    let g = golden_alarm("alarm_process_notif");
    assert!(matches!(parse_frame(&g[..25]), Err(RtaError::TooShort)));
    let mut bad = g.clone();
    bad[24] = 0x15; // pdu type 5
    assert!(matches!(parse_frame(&bad), Err(RtaError::BadPduType(5))));
    let mut short = g.clone();
    short[30] = 0x00;
    short[31] = 0x40; // var_part_len 64 > available
    assert!(matches!(
        parse_frame(&short),
        Err(RtaError::BadVarPartLen { .. })
    ));
}

#[test]
fn other_malformed_frames_name_their_fault() {
    let g = golden_alarm("alarm_process_notif");
    assert!(matches!(parse_frame(&g[..10]), Err(RtaError::Eth(_))));
    let mut id = g.clone();
    id[19] = 0x02;
    assert_eq!(parse_frame(&id), Err(RtaError::NotAlarm));
    let mut version = g.clone();
    version[24] = 0x21;
    assert_eq!(parse_frame(&version), Err(RtaError::BadVersion(2)));
    let mut block = g.clone();
    block[36] = 2;
    assert!(matches!(parse_frame(&block), Err(RtaError::Block(_))));
}

#[test]
fn a_built_frame_parses_back() {
    let pdu = RtaPdu {
        priority: Priority::Low,
        header: RtaHeader {
            dst_ref: 3,
            src_ref: 4,
            pdu_type: PduType::Data,
            tack: true,
            send_seq: 9,
            ack_seq: 8,
        },
        body: RtaBody::Data(RtaData::Notification(AlarmNotification {
            alarm_type: AlarmType::Other(0x77),
            api: 1,
            slot: 2,
            subslot: 3,
            module_ident: 4,
            submodule_ident: 5,
            specifier: AlarmSpecifier::default(),
            usi: USI_CHANNEL_DIAG,
            data: UserData::Channel(ChannelDiagnosis {
                channel: 0x8000,
                properties: ChannelProperties::from_u16(0x0a00),
                error_type: 6,
            }),
        })),
    };
    assert_eq!(parse_frame(&build_frame(CPU, DEV, &pdu)), Ok(pdu));
    let ack = RtaPdu {
        priority: Priority::High,
        header: RtaHeader {
            dst_ref: 0,
            src_ref: 1,
            pdu_type: PduType::Data,
            tack: false,
            send_seq: 1,
            ack_seq: 2,
        },
        body: RtaBody::Data(RtaData::Ack(AlarmAck {
            alarm_type: AlarmType::Plug,
            api: 0,
            slot: 1,
            subslot: 1,
            specifier: AlarmSpecifier::default(),
            status: PnioStatus::new(1, 2, 3, 4),
        })),
    };
    assert_eq!(parse_frame(&build_frame(CPU, DEV, &ack)), Ok(ack));
}
