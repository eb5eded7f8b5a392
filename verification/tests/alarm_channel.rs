//! The alarm channel: one alarm in flight, retries, acknowledgements, aborts.

use pnio::alarm::{
    parse_frame, AlarmAction, AlarmChannel, AlarmChannelConfig, AlarmError, AlarmNotification,
    AlarmReq, AlarmSpecifier, AlarmType, Priority, RtaBody, UserData, SEQ_NONE,
};
use pnio::cm::{AbortReason, PnioStatus};
use pnio::eth::MacAddr;

const MS: u64 = 1_000_000;

const DEV: MacAddr = MacAddr([0x8c, 0xf3, 0x19, 0xcd, 0x19, 0xf8]);
const CPU: MacAddr = MacAddr([0xec, 0x1c, 0x5d, 0x61, 0xe7, 0x3c]);

fn frame(dst: MacAddr, src: MacAddr, high: bool, kind: u8, flags: u8, seqs: (u16, u16), var: &[u8]) -> Vec<u8> {
    let mut f = Vec::new();
    f.extend_from_slice(&dst.0);
    f.extend_from_slice(&src.0);
    f.extend_from_slice(&[0x81, 0x00, if high { 0xc0 } else { 0xa0 }, 0x00, 0x88, 0x92]);
    f.extend_from_slice(&[if high { 0xfc } else { 0xfe }, 0x01]);
    f.extend_from_slice(&[0, 0, 0, 0, kind, flags]);
    f.extend_from_slice(&seqs.0.to_be_bytes());
    f.extend_from_slice(&seqs.1.to_be_bytes());
    f.extend_from_slice(&(var.len() as u16).to_be_bytes());
    f.extend_from_slice(var);
    f
}

fn notification(high: bool, alarm_type: u16, specifier: u16, usi: u16, data: &[u8]) -> Vec<u8> {
    let mut b = vec![0x00, if high { 0x01 } else { 0x02 }];
    b.extend_from_slice(&(24 + data.len() as u16).to_be_bytes());
    b.extend_from_slice(&[1, 0]);
    b.extend_from_slice(&alarm_type.to_be_bytes());
    b.extend_from_slice(&[0, 0, 0, 0, 0, 1, 0, 1, 0, 0, 0, 0x30, 0, 0, 0x01, 0x30]);
    b.extend_from_slice(&specifier.to_be_bytes());
    b.extend_from_slice(&usi.to_be_bytes());
    b.extend_from_slice(data);
    b
}

fn golden_alarm(name: &str) -> Vec<u8> {
    let ack = |high: bool, alarm_type: u8| {
        vec![
            0x80, if high { 0x01 } else { 0x02 }, 0, 18, 1, 0, 0, alarm_type, 0, 0, 0, 0, 0, 1, 0, 1, 0, 0,
            0, 0, 0, 0,
        ]
    };
    let mut f = match name {
        "alarm_process_notif" => frame(
            CPU,
            DEV,
            true,
            0x11,
            0x11,
            (0xffff, 0xfffe),
            &notification(true, 2, 0, 0x0010, &[1]),
        ),
        "alarm_ack_rta_high_cpu" => frame(DEV, CPU, true, 0x13, 0x01, (0xfffe, 0xffff), &[]),
        "alarm_ack_high_cpu" => frame(DEV, CPU, true, 0x11, 0x11, (0xffff, 0xffff), &ack(true, 2)),
        "alarm_ack_rta_high_dev" => frame(CPU, DEV, true, 0x13, 0x01, (0xffff, 0xffff), &[]),
        "alarm_diag_ack_cpu" => frame(DEV, CPU, false, 0x11, 0x11, (0, 0), &ack(false, 1)),
        "alarm_err_rta_cpu_removed" => {
            frame(DEV, CPU, false, 0x14, 0x01, (0xfffe, 0xfffe), &[0xcf, 0x81, 0xfd, 0x11])
        }
        _ => panic!("no frame {name}"),
    };
    // what comes from the wire is padded
    if f[..6] == DEV.0 && f.len() < 60 {
        f.resize(60, 0);
    }
    f
}

fn cfg() -> AlarmChannelConfig {
    AlarmChannelConfig {
        local_ref: 0,
        remote_ref: 0,
        rta_timeout: 100 * MS,
        rta_retries: 3,
        max_alarm_data_length: 256,
        peer_mac: CPU,
        our_mac: DEV,
    }
}
fn process_req(id: u32) -> AlarmReq {
    AlarmReq {
        id,
        priority: Priority::High,
        notification: AlarmNotification {
            alarm_type: AlarmType::Process,
            api: 0,
            slot: 1,
            subslot: 1,
            module_ident: 0x30,
            submodule_ident: 0x130,
            specifier: AlarmSpecifier::default(),
            usi: 0x0010,
            data: UserData::Raw(vec![1]),
        },
    }
}
fn sends(actions: &[AlarmAction]) -> Vec<Vec<u8>> {
    actions
        .iter()
        .filter_map(|a| {
            if let AlarmAction::Send(f) = a {
                Some(f.clone())
            } else {
                None
            }
        })
        .collect()
}

#[test]
fn full_handshake_reproduces_the_process_alarm_goldens() {
    let t0: u64 = 1_000_000_000;
    let mut ch = AlarmChannel::new(cfg());
    let out = ch.enqueue(process_req(7), t0).unwrap();
    assert_eq!(sends(&out), vec![golden_alarm("alarm_process_notif")]);
    assert_eq!(ch.in_flight(), Some(7));
    let out = ch.on_frame(&golden_alarm("alarm_ack_rta_high_cpu"), t0);
    assert!(out.is_empty(), "transport ack produces nothing to send");
    let out = ch.on_frame(&golden_alarm("alarm_ack_high_cpu"), t0);
    assert_eq!(sends(&out), vec![golden_alarm("alarm_ack_rta_high_dev")]);
    assert!(out.contains(&AlarmAction::Acked {
        id: 7,
        status: PnioStatus::ok()
    }));
    assert_eq!(ch.in_flight(), None);
    assert_eq!(ch.stats().sent, 1);
    assert_eq!(ch.stats().acked, 1);
}

#[test]
fn queue_is_fifo_and_one_in_flight() {
    let t0: u64 = 1_000_000_000;
    let mut ch = AlarmChannel::new(cfg());
    let a = ch.enqueue(process_req(1), t0).unwrap();
    let b = ch.enqueue(process_req(2), t0).unwrap();
    assert_eq!(sends(&a).len(), 1);
    assert!(sends(&b).is_empty());
    assert_eq!(ch.queued(), 1);
    ch.on_frame(&golden_alarm("alarm_ack_rta_high_cpu"), t0);
    let out = ch.on_frame(&golden_alarm("alarm_ack_high_cpu"), t0);
    // our ACK-RTA for the CPU's ack, then the second notification (send_seq 0)
    let s = sends(&out);
    assert_eq!(s.len(), 2);
    let second = parse_frame(&s[1]).unwrap();
    assert_eq!(
        (second.header.send_seq, second.header.ack_seq),
        (0x0000, 0xFFFF)
    );
    assert_eq!(ch.in_flight(), Some(2));
}

#[test]
fn retries_then_aborts_when_never_acked() {
    let t0: u64 = 1_000_000_000;
    let mut ch = AlarmChannel::new(cfg());
    ch.enqueue(process_req(1), t0).unwrap();
    let mut resends = 0;
    let mut t = t0;
    let mut aborted = None;
    for _ in 0..5 {
        t += 101 * MS;
        let out = ch.on_tick(t);
        resends += sends(&out).len();
        if let Some(AlarmAction::Abort(r)) =
            out.iter().find(|a| matches!(a, AlarmAction::Abort(_)))
        {
            aborted = Some(*r);
            break;
        }
    }
    assert_eq!(resends, 3);
    assert_eq!(aborted, Some(AbortReason::AlarmSendFailed));
    assert_eq!(ch.stats().retries, 3);
    assert_eq!(ch.stats().send_failures, 1);
    assert_eq!(ch.in_flight(), None);
}

#[test]
fn alarm_ack_overtaking_the_transport_ack_is_accepted() {
    let t0: u64 = 1_000_000_000;
    let mut ch = AlarmChannel::new(cfg());
    ch.enqueue(process_req(7), t0).unwrap();
    assert_eq!(ch.in_flight(), Some(7));

    // No `alarm_ack_rta_high_cpu` first: the content-level Alarm-Ack arrives
    // while we are still in SentData. It proves the DATA was delivered, so it
    // implicitly acknowledges the transport.
    let out = ch.on_frame(&golden_alarm("alarm_ack_high_cpu"), t0);
    assert_eq!(sends(&out), vec![golden_alarm("alarm_ack_rta_high_dev")]);
    assert!(out.contains(&AlarmAction::Acked {
        id: 7,
        status: PnioStatus::ok()
    }));
    assert_eq!(ch.in_flight(), None);
    assert_eq!(ch.queued(), 0);
    assert_eq!(ch.stats().acked, 1);
    assert_eq!(ch.stats().unexpected_rx, 0);
    assert_eq!(ch.next_deadline(), None);
}

#[test]
fn duplicate_data_is_re_acked_but_not_reprocessed() {
    let t0: u64 = 1_000_000_000;
    let mut ch = AlarmChannel::new(cfg());
    ch.enqueue(process_req(1), t0).unwrap();
    ch.on_frame(&golden_alarm("alarm_ack_rta_high_cpu"), t0);
    let first = ch.on_frame(&golden_alarm("alarm_ack_high_cpu"), t0);
    let again = ch.on_frame(&golden_alarm("alarm_ack_high_cpu"), t0);
    assert_eq!(sends(&again), vec![golden_alarm("alarm_ack_rta_high_dev")]);
    assert!(!again.iter().any(|a| matches!(a, AlarmAction::Acked { .. })));
    assert!(first.iter().any(|a| matches!(a, AlarmAction::Acked { .. })));
}

#[test]
fn controller_err_rta_aborts() {
    let t0: u64 = 1_000_000_000;
    let mut ch = AlarmChannel::new(cfg());
    ch.enqueue(process_req(1), t0).unwrap();
    let out = ch.on_frame(&golden_alarm("alarm_err_rta_cpu_removed"), t0);
    assert_eq!(
        out,
        vec![AlarmAction::Abort(
            AbortReason::ControllerErrRta(PnioStatus::new(0xCF, 0x81, 0xFD, 0x11))
        )]
    );
    assert_eq!(ch.in_flight(), None);
    assert_eq!(ch.queued(), 0);
}

#[test]
fn err_rta_out_uses_current_counters_and_low_priority() {
    let mut ch = AlarmChannel::new(cfg());
    let f = ch.err_rta(PnioStatus::rta_abort(PnioStatus::RTA_ABORT_AR_REMOVED));
    let pdu = parse_frame(&f).unwrap();
    assert_eq!(pdu.priority, Priority::Low);
    assert_eq!(
        (pdu.header.send_seq, pdu.header.ack_seq),
        (SEQ_NONE, SEQ_NONE)
    );
    assert_eq!(
        pdu.body,
        RtaBody::Error(PnioStatus::new(0xCF, 0x81, 0xFD, 17))
    );
}

#[test]
fn too_long_is_refused_before_the_wire() {
    let mut c = cfg();
    c.max_alarm_data_length = 30;
    let mut ch = AlarmChannel::new(c);
    let mut r = process_req(1);
    r.notification.data = UserData::Raw(vec![0; 40]);
    assert!(matches!(
        ch.enqueue(r, 0),
        Err(AlarmError::TooLong { .. })
    ));
}

#[test]
fn frames_from_another_mac_and_garbage_are_unexpected() {
    let t0: u64 = 1_000_000_000;
    let mut ch = AlarmChannel::new(cfg());
    let mut f = golden_alarm("alarm_ack_high_cpu");
    f[6] ^= 0xFF;
    assert_eq!(ch.on_frame(&f, t0), vec![AlarmAction::UnexpectedRx]);
    assert_eq!(ch.on_frame(&[0u8; 10], t0), vec![AlarmAction::UnexpectedRx]);
    assert_eq!(ch.stats().unexpected_rx, 2);
}

#[test]
fn await_alarm_ack_timeout_drops_the_alarm_and_keeps_the_ar() {
    let t0: u64 = 1_000_000_000;
    let mut ch = AlarmChannel::new(cfg());
    let out = ch.enqueue(process_req(1), t0).unwrap();
    assert_eq!(sends(&out), vec![golden_alarm("alarm_process_notif")]);
    // A second alarm queued behind it, to prove the queue continues.
    assert!(sends(&ch.enqueue(process_req(2), t0).unwrap()).is_empty());

    let out = ch.on_frame(&golden_alarm("alarm_ack_rta_high_cpu"), t0);
    assert!(out.is_empty(), "transport ack produces nothing to send");
    assert_eq!(ch.in_flight(), Some(1));

    // The transport ACK confirmed delivery, so the AwaitAlarmAck deadline is
    // ALARM_ACK_TIMEOUT_FACTOR (10) x rta_timeout away, not one rta_timeout:
    // a plain rta_timeout tick must do nothing at all.
    let t = t0 + 101 * MS;
    assert!(
        ch.on_tick(t).is_empty(),
        "one rta_timeout is not the deadline"
    );
    assert_eq!(ch.in_flight(), Some(1));
    assert_eq!(ch.stats().retries, 0);

    // Past 10 x rta_timeout the alarm is dropped — no resend, no Abort — and the
    // next queued alarm goes out.
    let t = t0 + 1001 * MS;
    let out = ch.on_tick(t);
    assert!(
        !out.iter().any(|a| matches!(a, AlarmAction::Abort(_))),
        "a slow controller application must not take the AR down: {out:?}"
    );
    let s = sends(&out);
    assert_eq!(s.len(), 1, "exactly the next queued alarm: {out:?}");
    let next = parse_frame(&s[0]).unwrap();
    assert_eq!(next.header.send_seq, 0x0000, "a fresh DATA, not a resend");
    assert_eq!(ch.in_flight(), Some(2));
    assert_eq!(ch.queued(), 0);
    assert_eq!(ch.stats().ack_timeouts, 1);
    assert_eq!(ch.stats().retries, 0);
    assert_eq!(ch.stats().send_failures, 0);
}

#[test]
fn transport_ack_while_idle_is_counted_and_produces_nothing() {
    let t0: u64 = 1_000_000_000;
    let mut ch = AlarmChannel::new(cfg());
    assert_eq!(ch.in_flight(), None);
    let out = ch.on_frame(&golden_alarm("alarm_ack_rta_high_cpu"), t0);
    assert!(out.is_empty());
    assert_eq!(ch.stats().unexpected_rx, 1);
}

#[test]
fn mismatched_alarm_ack_while_awaiting_is_unexpected_but_still_transport_acked() {
    let t0: u64 = 1_000_000_000;
    let mut ch = AlarmChannel::new(cfg());
    ch.enqueue(process_req(1), t0).unwrap();
    ch.on_frame(&golden_alarm("alarm_ack_rta_high_cpu"), t0);
    assert_eq!(ch.in_flight(), Some(1));

    // alarm_diag_ack_cpu carries a Diagnosis AlarmAck; the in-flight alarm is
    // Process, so it cannot satisfy AwaitAlarmAck — but it is still a new,
    // valid DATA that must be ack'd at the transport level.
    let out = ch.on_frame(&golden_alarm("alarm_diag_ack_cpu"), t0);
    assert!(
        out.iter().any(|a| matches!(a, AlarmAction::Send(_))),
        "the ACK-RTA is still sent: {out:?}"
    );
    assert!(out.contains(&AlarmAction::UnexpectedRx));
    assert!(!out.iter().any(|a| matches!(a, AlarmAction::Acked { .. })));
    assert_eq!(
        ch.in_flight(),
        Some(1),
        "AwaitAlarmAck must not be disturbed"
    );
}

#[test]
fn notification_from_the_controller_is_transport_acked_but_unexpected() {
    let t0: u64 = 1_000_000_000;
    let mut ch = AlarmChannel::new(cfg());
    ch.enqueue(process_req(1), t0).unwrap();
    ch.on_frame(&golden_alarm("alarm_ack_rta_high_cpu"), t0);
    assert_eq!(ch.in_flight(), Some(1));

    // alarm_process_notif is captured device(DEV) -> CPU; swap src/dst so it
    // looks like the controller sending *us* a Notification instead.
    let mut f = golden_alarm("alarm_process_notif");
    let (dst, src) = (f[0..6].to_vec(), f[6..12].to_vec());
    f[0..6].copy_from_slice(&src);
    f[6..12].copy_from_slice(&dst);
    assert_eq!(&f[0..6], &DEV.0[..], "dst is now our own MAC");
    assert_eq!(&f[6..12], &CPU.0[..], "src is now the controller's MAC");
    let out = ch.on_frame(&f, t0);
    assert!(
        out.iter().any(|a| matches!(a, AlarmAction::Send(_))),
        "the ACK-RTA is still sent: {out:?}"
    );
    assert!(out.contains(&AlarmAction::UnexpectedRx));
    assert_eq!(ch.in_flight(), Some(1));
}

/// The alarms sent whose fate is known, and the one in flight.
fn accounted(ch: &AlarmChannel) -> u64 {
    let s = ch.stats();
    s.acked + s.ack_timeouts + s.send_failures + u64::from(ch.in_flight().is_some())
}

#[test]
fn every_alarm_sent_is_accounted_for() {
    let mut t: u64 = 1_000_000_000;
    let mut ch = AlarmChannel::new(cfg());
    assert_eq!((ch.stats().sent, accounted(&ch)), (0, 0));
    for id in 1..4 {
        ch.enqueue(process_req(id), t).unwrap();
        assert_eq!((ch.stats().sent, accounted(&ch)), (1, 1));
    }
    // the first is acknowledged, the second delivered and forgotten, the third never delivered
    ch.on_frame(&golden_alarm("alarm_ack_high_cpu"), t);
    assert_eq!((ch.stats().acked, ch.stats().sent, accounted(&ch)), (1, 2, 2));
    let ack_of_second = frame(DEV, CPU, true, 0x13, 0x01, (0xfffe, 0x0000), &[]);
    ch.on_frame(&ack_of_second, t);
    t += 1001 * MS;
    ch.on_tick(t);
    assert_eq!((ch.stats().ack_timeouts, ch.stats().sent, accounted(&ch)), (1, 3, 3));
    for _ in 0..4 {
        t += 101 * MS;
        ch.on_tick(t);
        assert_eq!((ch.stats().sent, accounted(&ch)), (3, 3));
    }
    assert_eq!((ch.stats().send_failures, ch.stats().retries), (1, 3));
    assert_eq!(ch.in_flight(), None);
}

/// Sends an alarm, has its DATA acknowledged, and lets its answer time out.
fn send_and_forget(ch: &mut AlarmChannel, id: u32, t: &mut u64) -> (u16, u16, bool) {
    let out = ch.enqueue(process_req(id), *t).unwrap();
    let h = parse_frame(&sends(&out)[0]).unwrap().header;
    ch.on_frame(&frame(DEV, CPU, true, 0x13, 0x01, (0xfffe, h.send_seq), &[]), *t);
    *t += 1001 * MS;
    assert!(ch.on_tick(*t).is_empty());
    assert_eq!(ch.in_flight(), None);
    (h.send_seq, h.ack_seq, h.tack)
}

#[test]
fn alarms_are_numbered_from_ffff_over_7fff_back_to_0() {
    let mut t: u64 = 1_000_000_000;
    let mut ch = AlarmChannel::new(cfg());
    assert_eq!(send_and_forget(&mut ch, 0, &mut t), (0xffff, 0xfffe, true));
    for k in 1..0x8003u32 {
        let expected = ((k - 1) % 0x8000) as u16;
        assert_eq!(send_and_forget(&mut ch, k, &mut t), (expected, 0xfffe, true));
    }
    assert_eq!(ch.stats().sent, 0x8003);
}

#[test]
fn an_alarm_acknowledges_the_last_data_taken() {
    let mut t: u64 = 1_000_000_000;
    let mut ch = AlarmChannel::new(cfg());
    send_and_forget(&mut ch, 0, &mut t);
    // too late to end the alarm, but DATA all the same
    ch.on_frame(&golden_alarm("alarm_ack_high_cpu"), t);
    let taken = parse_frame(&golden_alarm("alarm_ack_high_cpu")).unwrap().header.send_seq;
    assert_eq!(send_and_forget(&mut ch, 1, &mut t), (0, taken, true));
}

#[test]
fn a_duplicate_is_acknowledged_however_late() {
    let mut t: u64 = 1_000_000_000;
    let mut ch = AlarmChannel::new(cfg());
    ch.enqueue(process_req(1), t).unwrap();
    let data = golden_alarm("alarm_ack_high_cpu");
    ch.on_frame(&data, t);
    send_and_forget(&mut ch, 2, &mut t);
    let (stats, queued) = (ch.stats(), ch.queued());
    let again = ch.on_frame(&data, t);
    assert_eq!(again.len(), 1);
    let pdu = parse_frame(&sends(&again)[0]).unwrap();
    assert_eq!(pdu.body, RtaBody::Ack);
    assert_eq!(pdu.header.ack_seq, parse_frame(&data).unwrap().header.send_seq);
    assert_eq!((ch.stats(), ch.queued(), ch.in_flight()), (stats, queued, None));
}

#[test]
fn an_unconfirmed_alarm_is_repeated_byte_for_byte() {
    let mut t: u64 = 1_000_000_000;
    let mut ch = AlarmChannel::new(cfg());
    let first = sends(&ch.enqueue(process_req(1), t).unwrap());
    ch.enqueue(process_req(2), t).unwrap();
    for retries in 1..4 {
        let due = ch.next_deadline().unwrap();
        assert!(ch.on_tick(due - 1).is_empty());
        t = due;
        assert_eq!(ch.on_tick(t), vec![AlarmAction::Send(first[0].clone())]);
        assert_eq!(ch.stats().retries, retries);
        assert_eq!(ch.next_deadline(), Some(t + 100 * MS));
    }
    let due = ch.next_deadline().unwrap();
    assert_eq!(ch.on_tick(due), vec![AlarmAction::Abort(AbortReason::AlarmSendFailed)]);
    assert_eq!((ch.stats().send_failures, ch.in_flight(), ch.queued()), (1, None, 0));
    assert_eq!(ch.next_deadline(), None);
}
