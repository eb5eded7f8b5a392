//! Captures: telling the formats apart and reading frames in order.

use pcap_file::pcap::{PcapPacket, PcapWriter};
use pcap_file::pcapng::blocks::enhanced_packet::EnhancedPacketBlock;
use pcap_file::pcapng::blocks::interface_description::InterfaceDescriptionBlock;
use pcap_file::pcapng::PcapNgWriter;
use pcap_file::DataLink;
use pnio::capture::{CaptureError, CaptureFormat, NgBlock, PcapFrames};
use std::borrow::Cow;
use std::time::Duration;

fn make_pcap(frames: &[&[u8]]) -> Vec<u8> {
    let mut buf = Vec::new();
    {
        let mut w = PcapWriter::new(&mut buf).unwrap();
        for f in frames {
            w.write_packet(&PcapPacket::new(Duration::ZERO, f.len() as u32, f))
                .unwrap();
        }
    }
    buf
}

fn make_pcapng(frames: &[&[u8]]) -> Vec<u8> {
    let mut buf = Vec::new();
    {
        let mut w = PcapNgWriter::new(&mut buf).unwrap();
        let iface = InterfaceDescriptionBlock {
            linktype: DataLink::ETHERNET,
            snaplen: 0xFFFF,
            options: vec![],
        };
        w.write_pcapng_block(iface).unwrap();
        for f in frames {
            let pkt = EnhancedPacketBlock {
                interface_id: 0,
                timestamp: Duration::ZERO,
                original_len: f.len() as u32,
                data: Cow::Borrowed(f),
                options: vec![],
            };
            w.write_pcapng_block(pkt).unwrap();
        }
    }
    buf
}

fn collect(bytes: Vec<u8>) -> Vec<Vec<u8>> {
    let mut frames = PcapFrames::from_bytes(bytes).unwrap();
    let mut out = Vec::new();
    while let Some(r) = frames.next() {
        out.push(r.unwrap());
    }
    out
}

#[test]
fn reads_all_pcap_frames_in_order() {
    let frames = collect(make_pcap(&[&[0xaa, 0xbb], &[0xcc]]));
    assert_eq!(frames, vec![vec![0xaa, 0xbb], vec![0xcc]]);
}

#[test]
fn reads_pcapng_frames_in_order() {
    let bytes = make_pcapng(&[&[0xaa, 0xbb], &[0xcc]]);
    let frames = collect(bytes);
    assert_eq!(frames, vec![vec![0xaa, 0xbb], vec![0xcc]]);
}

#[test]
fn unknown_format_errors() {
    let err = PcapFrames::from_bytes(vec![0x00, 0x01, 0x02, 0x03, 0x04]);
    assert!(matches!(err, Err(CaptureError::UnknownFormat(_))));
}

#[test]
fn formats_are_told_by_their_magic() {
    for magic in [
        [0xd4, 0xc3, 0xb2, 0xa1],
        [0xa1, 0xb2, 0xc3, 0xd4],
        [0x4d, 0x3c, 0xb2, 0xa1],
        [0xa1, 0xb2, 0x3c, 0x4d],
    ] {
        assert_eq!(CaptureFormat::detect(magic), Some(CaptureFormat::Pcap));
    }
    assert_eq!(
        CaptureFormat::detect([0x0a, 0x0d, 0x0d, 0x0a]),
        Some(CaptureFormat::PcapNg)
    );
    assert_eq!(CaptureFormat::detect([0, 1, 2, 3]), None);
}

#[test]
fn a_capture_that_ends_early_says_so_again_and_again() {
    assert_eq!(
        PcapFrames::from_bytes(vec![0xd4, 0xc3]).err(),
        Some(CaptureError::TooShort)
    );
    let whole = make_pcap(&[&[0xaa, 0xbb], &[0xcc]]);
    assert_eq!(
        PcapFrames::from_bytes(whole[..20].to_vec()).err(),
        Some(CaptureError::Truncated)
    );
    let mut frames = PcapFrames::from_bytes(whole[..whole.len() - 1].to_vec()).unwrap();
    assert_eq!(frames.next(), Some(Ok(vec![0xaa, 0xbb])));
    assert_eq!(frames.next(), Some(Err(CaptureError::Truncated)));
    assert_eq!(frames.next(), Some(Err(CaptureError::Truncated)));
    let mut frames = PcapFrames::from_bytes(whole).unwrap();
    frames.next();
    frames.next();
    assert_eq!(frames.next(), None);
    assert_eq!(frames.next(), None);
}

#[test]
fn a_malformed_block_is_reported_with_the_parser_s_words() {
    let mut bytes = make_pcapng(&[&[0xaa, 0xbb]]);
    let n = bytes.len();
    bytes[n - 1] ^= 1; // the trailing length no longer matches
    let mut frames = PcapFrames::from_bytes(bytes).unwrap();
    let Some(Err(CaptureError::Pcap(why))) = frames.next() else {
        panic!("a fault")
    };
    assert!(why.contains("initial_length"), "{why}");
}

#[test]
fn a_new_section_may_change_the_byte_order() {
    let mut bytes = make_pcapng(&[&[0xaa, 0xbb]]);
    // a section header and a simple packet block, little-endian
    bytes.extend_from_slice(&[0x0a, 0x0d, 0x0d, 0x0a, 28, 0, 0, 0, 0x4d, 0x3c, 0x2b, 0x1a, 1, 0, 0, 0]);
    bytes.extend_from_slice(&[0xff, 0xff, 0xff, 0xff, 0xff, 0xff, 0xff, 0xff, 28, 0, 0, 0]);
    bytes.extend_from_slice(&[3, 0, 0, 0, 20, 0, 0, 0, 4, 0, 0, 0, 1, 2, 3, 4, 20, 0, 0, 0]);
    assert_eq!(collect(bytes), vec![vec![0xaa, 0xbb], vec![1, 2, 3, 4]]);
}

#[test]
fn blocks_without_a_packet_give_nothing() {
    let mut frames = PcapFrames::from_bytes(make_pcapng(&[&[0xaa, 0xbb]])).unwrap();
    assert!(frames.fits(0));
    assert!(!frames.fits(1_000_000));
    assert_eq!(
        frames.on_block(Err(Some("bad".to_string()))),
        Some(Err(CaptureError::Pcap("bad".to_string())))
    );
    assert_eq!(frames.on_block(Err(None)), Some(Err(CaptureError::Truncated)));
    // the interface description takes 20 bytes, the packet behind it 36
    assert_eq!(frames.on_block(Ok((NgBlock::Other, 36))), None);
    assert_eq!(frames.next(), Some(Ok(vec![0xaa, 0xbb])));
    assert_eq!(frames.next(), None);
    assert_eq!(
        frames.on_block(Ok((NgBlock::SimplePacket(vec![7]), 0))),
        Some(Ok(vec![7]))
    );
    assert_eq!(frames.on_packet(Ok((vec![8], 0))), Ok(vec![8]));
    assert_eq!(frames.on_packet(Err(None)), Err(CaptureError::Truncated));
}
