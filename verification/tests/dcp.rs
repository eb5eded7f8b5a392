//! DCP: headers, blocks, the answers to Set requests, and Identify requests.

use pnio::dcp::block::{blocks_encoded_len, parse_blocks, write_blocks, DcpBlock};
use pnio::dcp::frame::dcp_multicast_mac;
use pnio::dcp::set::{
    build_set_response, decide_set, parse_set_request, SetBlock, SetBlockError, SetRequest,
};
use pnio::dcp::{
    handle_dcp_frame, identify_request_of, is_identify_frame, DcpConfig, DcpError, DcpHeader,
    DeviceProperties, FrameId, IdentifyRequest, ServiceId, ServiceType,
};
use pnio::eth::MacAddr;

/// A Set request of the IP suite as it stands on the wire, tagged and padded.
fn set_req() -> Vec<u8> {
    let mut f = vec![0x8c, 0xf3, 0x19, 0xcd, 0x19, 0xf8, 0xec, 0x1c, 0x5d, 0x61, 0xe7, 0x3f];
    f.extend_from_slice(&[0x81, 0x00, 0x00, 0x00, 0x88, 0x92, 0xfe, 0xfd]);
    f.extend_from_slice(&[0x04, 0x00, 0x03, 0x00, 0x01, 0x2d, 0x00, 0x00, 0x00, 0x12]);
    f.extend_from_slice(&[0x01, 0x02, 0x00, 0x0e, 0x00, 0x00]);
    f.extend_from_slice(&[172, 16, 2, 10, 255, 255, 255, 0, 172, 16, 2, 10]);
    f.resize(64, 0);
    f
}

/// The answer that accepts it.
fn set_res() -> Vec<u8> {
    let mut f = vec![0xec, 0x1c, 0x5d, 0x61, 0xe7, 0x3f, 0x8c, 0xf3, 0x19, 0xcd, 0x19, 0xf8];
    f.extend_from_slice(&[0x88, 0x92, 0xfe, 0xfd]);
    f.extend_from_slice(&[0x04, 0x01, 0x03, 0x00, 0x01, 0x2d, 0x00, 0x00, 0x00, 0x08]);
    f.extend_from_slice(&[0x05, 0x04, 0x00, 0x03, 0x01, 0x02, 0x00, 0x00]);
    f
}

// DCP header bytes from the golden Identify REQUEST (the 10 header bytes after FrameID 0xfefe, followed by its single block).
// 05 00 03000152 0001 000c | 02020008 692d646576696365
const REQ_AFTER_FRAMEID: &[u8] = &[
    0x05, 0x00, 0x03, 0x00, 0x01, 0x52, 0x00, 0x01, 0x00, 0x0c, // header
    0x02, 0x02, 0x00, 0x08, 0x69, 0x2d, 0x64, 0x65, 0x76, 0x69, 0x63, 0x65, // block
];

#[test]
fn frameid_roundtrip() {
    assert_eq!(FrameId::from_u16(0xfefe), Some(FrameId::IdentifyRequest));
    assert_eq!(FrameId::from_u16(0xfeff), Some(FrameId::IdentifyResponse));
    assert_eq!(FrameId::from_u16(0x1234), None);
    assert_eq!(FrameId::IdentifyResponse.to_u16(), 0xfeff);
}

#[test]
fn parse_golden_request_header() {
    let (h, blocks) = DcpHeader::parse(REQ_AFTER_FRAMEID).unwrap();
    assert_eq!(h.service_id, ServiceId::Identify);
    assert_eq!(h.service_type, ServiceType::Request);
    assert_eq!(h.xid, 0x0300_0152);
    assert_eq!(h.response_delay, 1);
    assert_eq!(h.data_length, 12);
    assert_eq!(blocks.len(), 12); // sliced to data_length
    assert_eq!(&blocks[..4], &[0x02, 0x02, 0x00, 0x08]);
}

#[test]
fn header_write_roundtrip() {
    let h = DcpHeader {
        service_id: ServiceId::Identify,
        service_type: ServiceType::ResponseSuccess,
        xid: 0x0300_0152,
        response_delay: 0,
        data_length: 88,
    };
    let mut out = Vec::new();
    h.write(&mut out);
    assert_eq!(
        out,
        vec![0x05, 0x01, 0x03, 0x00, 0x01, 0x52, 0x00, 0x00, 0x00, 0x58]
    );
}

#[test]
fn parse_too_short() {
    assert!(matches!(
        DcpHeader::parse(&[0x05, 0x00]),
        Err(DcpError::TooShort { .. })
    ));
}

#[test]
fn frameid_to_u16_all_variants() {
    assert_eq!(FrameId::IdentifyRequest.to_u16(), 0xfefe);
    assert_eq!(FrameId::GetSet.to_u16(), 0xfefd);
    assert_eq!(FrameId::Hello.to_u16(), 0xfefc);
}

#[test]
fn service_enums_reject_unknown() {
    assert_eq!(ServiceId::from_u8(7), Err(DcpError::BadServiceId(7)));
    assert_eq!(ServiceType::from_u8(9), Err(DcpError::BadServiceType(9)));
}

#[test]
fn parse_truncated_block_data_is_too_short() {
    // valid 10-byte header claims DCPDataLength=12 but only 4 block bytes follow
    let buf = &[
        0x05, 0x00, 0x00, 0x00, 0x00, 0x01, 0x00, 0x00, 0x00,
        0x0c, // header, data_length=12
        0x02, 0x02, 0x00, 0x08, // only 4 of 12 block bytes
    ];
    assert!(matches!(
        DcpHeader::parse(buf),
        Err(DcpError::TooShort { need: 22, have: 14 })
    ));
}

fn cfg(ip: [u8; 4]) -> DcpConfig {
    cfg_full(ip, [255, 255, 255, 0], ip)
}

fn cfg_full(ip: [u8; 4], subnet: [u8; 4], gateway: [u8; 4]) -> DcpConfig {
    DcpConfig {
        mac: MacAddr([0x8c, 0xf3, 0x19, 0xcd, 0x19, 0xf8]),
        properties: DeviceProperties {
            name_of_station: "rt-labs-dev".into(),
            type_of_station: "P-Net Sample Application".into(),
            vendor_id: 0x0493,
            device_id: 0x0002,
            device_role: 0x0100,
            device_instance: 1,
            device_options: vec![1, 2, 2, 2, 2, 3],
            ip,
            subnet,
            gateway,
            ip_block_info: 1,
        },
    }
}

#[test]
fn parse_golden_set_ip_request() {
    let f = set_req();
    // FrameID at 18 (VLAN), DCP header at 20, blocks after the 10-byte header
    let (h, blocks) = DcpHeader::parse(&f[20..]).unwrap();
    assert_eq!(h.xid, 0x0300_012d);
    let req = parse_set_request(blocks).unwrap();
    assert_eq!(
        req.blocks,
        vec![SetBlock::IpSuite {
            qualifier: 0,
            ip: [172, 16, 2, 10],
            subnet: [255, 255, 255, 0],
            gateway: [172, 16, 2, 10]
        }]
    );
}

#[test]
fn set_ok_response_is_byte_exact_via_dispatch() {
    let resp = handle_dcp_frame(&set_req(), &cfg([172, 16, 2, 10]))
        .unwrap()
        .unwrap();
    assert_eq!(resp, set_res());
}

#[test]
fn different_ip_is_refused_not_applied() {
    let resp = handle_dcp_frame(&set_req(), &cfg([172, 16, 2, 99]))
        .unwrap()
        .unwrap();
    // same frame, BlockError = SetNotPossible (0x05) at the last value byte
    let mut expected = set_res();
    expected[32] = 0x05;
    assert_eq!(resp, expected);
}

#[test]
fn unsupported_option_gets_suboption_not_supported() {
    let req = SetRequest {
        blocks: vec![SetBlock::Other {
            option: 2,
            suboption: 2,
        }],
    };
    assert_eq!(
        decide_set(&req, &cfg([1, 2, 3, 4]).properties),
        vec![(2, 2, SetBlockError::SuboptionNotSupported)]
    );
}

#[test]
fn matching_ip_but_other_subnet_is_refused() {
    let resp = handle_dcp_frame(
        &set_req(),
        &cfg_full([172, 16, 2, 10], [255, 255, 0, 0], [172, 16, 2, 10]),
    )
    .unwrap()
    .unwrap();
    assert_eq!(resp[32], 0x05);
}

#[test]
fn matching_ip_but_other_gateway_is_refused() {
    let resp = handle_dcp_frame(
        &set_req(),
        &cfg_full([172, 16, 2, 10], [255, 255, 255, 0], [172, 16, 2, 1]),
    )
    .unwrap()
    .unwrap();
    assert_eq!(resp[32], 0x05);
}

#[test]
fn get_request_is_ignored() {
    let mut f = set_req();
    f[20] = 3; // ServiceID Get
    assert_eq!(handle_dcp_frame(&f, &cfg([172, 16, 2, 10])).unwrap(), None);
}

#[test]
fn blocks_read_back() {
    let blocks = vec![
        DcpBlock {
            option: 2,
            suboption: 2,
            block_info: Some(0),
            value: b"abc".to_vec(),
        },
        DcpBlock {
            option: 1,
            suboption: 2,
            block_info: Some(1),
            value: vec![1, 2, 3, 4],
        },
    ];
    let mut out = Vec::new();
    write_blocks(&blocks, &mut out);
    assert_eq!(
        out,
        vec![2, 2, 0, 5, 0, 0, b'a', b'b', b'c', 0, 1, 2, 0, 6, 0, 1, 1, 2, 3, 4]
    );
    assert_eq!(blocks_encoded_len(&blocks), 20);
    assert_eq!(parse_blocks(&out, true).unwrap(), blocks);
}

#[test]
fn malformed_set_requests_are_errors() {
    let cfg = cfg([172, 16, 2, 10]);
    assert!(matches!(
        handle_dcp_frame(&set_req()[..10], &cfg),
        Err(DcpError::TooShort { .. })
    ));
    let mut bad = set_req();
    bad[20] = 9;
    assert_eq!(handle_dcp_frame(&bad, &cfg), Err(DcpError::BadServiceId(9)));
    let mut bad = set_req();
    bad[21] = 7;
    assert_eq!(handle_dcp_frame(&bad, &cfg), Err(DcpError::BadServiceType(7)));
    let mut other = set_req();
    other[16] = 0x08;
    other[17] = 0x00;
    assert_eq!(handle_dcp_frame(&other, &cfg), Ok(None));
}

#[test]
fn every_result_is_answered_in_order() {
    let out = build_set_response(
        MacAddr([1; 6]),
        MacAddr([2; 6]),
        7,
        &vec![
            (1, 2, SetBlockError::NoError),
            (2, 2, SetBlockError::SuboptionNotSupported),
            (9, 9, SetBlockError::OptionNotSupported),
        ],
    );
    assert_eq!(&out[26..], &[5, 4, 0, 3, 1, 2, 0, 0, 5, 4, 0, 3, 2, 2, 2, 0, 5, 4, 0, 3, 9, 9, 1, 0]);
    assert_eq!(SetBlockError::ResourceError.code(), 4);
    assert_eq!(dcp_multicast_mac(), MacAddr([1, 0x0e, 0xcf, 0, 0, 0]));
}

/// An Identify request for a station by its name, to everyone, padded.
fn identify_req() -> Vec<u8> {
    let mut f = dcp_multicast_mac().0.to_vec();
    f.extend_from_slice(&[0xec, 0x1c, 0x5d, 0x61, 0xe7, 0x3f, 0x88, 0x92, 0xfe, 0xfe]);
    f.extend_from_slice(REQ_AFTER_FRAMEID);
    f.resize(60, 0);
    f
}

#[test]
fn an_identify_request_is_read() {
    assert!(is_identify_frame(&identify_req()));
    assert_eq!(
        identify_request_of(&identify_req()),
        Ok(Some(IdentifyRequest {
            from: MacAddr([0xec, 0x1c, 0x5d, 0x61, 0xe7, 0x3f]),
            xid: 0x0300_0152,
            response_delay: 1,
            blocks: REQ_AFTER_FRAMEID[10..].to_vec(),
        }))
    );
}

#[test]
fn other_frames_carry_no_identify_request() {
    assert!(!is_identify_frame(&set_req()));
    assert_eq!(identify_request_of(&set_req()), Ok(None));
    let mut response = identify_req();
    response[17] = 1; // ServiceType ResponseSuccess
    assert!(is_identify_frame(&response));
    assert_eq!(identify_request_of(&response), Ok(None));
    let mut set = identify_req();
    set[16] = 4; // ServiceID Set
    assert_eq!(identify_request_of(&set), Ok(None));
    let mut ipv4 = identify_req();
    ipv4[12] = 0x08;
    assert!(!is_identify_frame(&ipv4));
    assert_eq!(identify_request_of(&ipv4), Ok(None));
}

#[test]
fn malformed_identify_requests_are_errors() {
    assert_eq!(
        identify_request_of(&identify_req()[..15]),
        Err(DcpError::TooShort { need: 16, have: 15 })
    );
    assert_eq!(
        identify_request_of(&identify_req()[..20]),
        Err(DcpError::TooShort { need: 10, have: 4 })
    );
    let mut bad = identify_req();
    bad[16] = 9;
    assert_eq!(identify_request_of(&bad), Err(DcpError::BadServiceId(9)));
}
