//! Ethernet headers and the in-memory transport.

use pnio::eth::{EthError, EthHeader, MacAddr, MockTransport, TransportError, MAX_FRAME_LEN};

#[test]
fn mock_records_sent_frames() {
    let mut t = MockTransport::new();
    t.send(&[1, 2, 3]).unwrap();
    t.send(&[4, 5]).unwrap();
    assert_eq!(t.sent(), vec![vec![1, 2, 3], vec![4, 5]]);
}

#[test]
fn mock_returns_pushed_rx_in_order_then_none() {
    let mut t = MockTransport::new();
    t.push_rx(vec![9, 9]);
    assert_eq!(t.recv(None).unwrap(), Some(vec![9, 9]));
    assert_eq!(t.recv(None).unwrap(), None);
}

#[test]
fn mock_recv_into_copies_the_frame_and_returns_its_length() {
    let mut t = MockTransport::new();
    t.push_rx(vec![1, 2, 3]);
    let mut buf = [0u8; MAX_FRAME_LEN];
    assert_eq!(t.recv_into(&mut buf, None).unwrap(), Some(3));
    assert_eq!(&buf[..3], &[1, 2, 3]);
    assert_eq!(t.recv_into(&mut buf, None).unwrap(), None);
}

#[test]
fn mock_recv_into_rejects_a_short_buffer_without_consuming() {
    let mut t = MockTransport::new();
    t.push_rx(vec![1, 2, 3]);
    let mut small = [0u8; 16];
    assert!(matches!(
        t.recv_into(&mut small, None),
        Err(TransportError::BufferTooSmall)
    ));
    // The frame is still queued.
    let mut buf = [0u8; MAX_FRAME_LEN];
    assert_eq!(t.recv_into(&mut buf, None).unwrap(), Some(3));
}

#[test]
fn mock_recv_into_reports_a_frame_longer_than_the_buffer() {
    let mut t = MockTransport::new();
    t.push_rx(vec![0u8; MAX_FRAME_LEN + 1]);
    let mut buf = [0u8; MAX_FRAME_LEN];
    assert!(matches!(
        t.recv_into(&mut buf, None),
        Err(TransportError::FrameTooLong { len }) if len == MAX_FRAME_LEN + 1
    ));
}

#[test]
fn default_recv_returns_the_same_bytes_as_recv_into() {
    let mut t = MockTransport::new();
    t.push_rx(vec![7, 8, 9]);
    assert_eq!(t.recv(None).unwrap(), Some(vec![7, 8, 9]));
}

#[test]
fn headers_read_back_tagged_and_untagged() {
    for vlan in [None, Some(0xc000)] {
        let h = EthHeader {
            dst: MacAddr([1; 6]),
            src: MacAddr([2; 6]),
            vlan,
            ethertype: 0x8892,
        };
        let mut out = Vec::new();
        h.write(&mut out);
        let len = out.len();
        assert_eq!(len, if vlan.is_some() { 18 } else { 14 });
        out.extend_from_slice(&[9, 9]);
        assert_eq!(EthHeader::parse(&out), Ok((h, len)));
    }
    assert!(matches!(
        EthHeader::parse(&[0; 13]),
        Err(EthError::TooShort { need: 14, have: 13 })
    ));
}
