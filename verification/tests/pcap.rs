use std::collections::HashSet;

use orbshred::clock::Instant;
use orbshred::registry::SourceId;
use orbshred::shred::{ShredKey, ShredType};
use orbshred::sources::bpf_filter::{build_bpf_filter, run_cbpf, Outcome, ACCEPT};
use orbshred::sources::pcap::{
    capture_setup, extract_src_ip, extract_udp_payload, ip_header_offset, route_matches, Capture,
    Ipv4Addr, PcapRoute, SetupFailure, SetupStep, StepOutcome,
};

/// Build an Ethernet+IPv4+UDP frame with optional 802.1Q VLAN tag.
fn build_frame(vlan_tag: Option<u16>, src_ip: [u8; 4], dst_port: u16, payload: &[u8]) -> Vec<u8> {
    let mut buf = Vec::new();
    // dst MAC (6) + src MAC (6)
    buf.extend_from_slice(&[0u8; 12]);
    // VLAN tag if requested
    if let Some(vid) = vlan_tag {
        buf.extend_from_slice(&[0x81, 0x00]); // 802.1Q TPID
        buf.extend_from_slice(&(vid & 0x0fff).to_be_bytes()); // PCP/DEI/VID
    }
    // Inner ethertype: IPv4
    buf.extend_from_slice(&[0x08, 0x00]);
    // IPv4 header (20 bytes, no options)
    let total_len = (20 + 8 + payload.len()) as u16;
    buf.push(0x45); // version 4, IHL 5
    buf.push(0x00); // TOS
    buf.extend_from_slice(&total_len.to_be_bytes());
    buf.extend_from_slice(&[0x00, 0x00]); // identification
    buf.extend_from_slice(&[0x00, 0x00]); // flags+fragoff (none)
    buf.push(64); // TTL
    buf.push(17); // proto = UDP
    buf.extend_from_slice(&[0x00, 0x00]); // checksum (unused)
    buf.extend_from_slice(&src_ip); // src IP
    buf.extend_from_slice(&[10, 0, 0, 1]); // dst IP
    // UDP header (8 bytes)
    buf.extend_from_slice(&1234u16.to_be_bytes()); // src port
    buf.extend_from_slice(&dst_port.to_be_bytes());
    let udp_len = (8 + payload.len()) as u16;
    buf.extend_from_slice(&udp_len.to_be_bytes());
    buf.extend_from_slice(&[0x00, 0x00]); // checksum (unused)
    buf.extend_from_slice(payload);
    buf
}

fn route(id: u32, included: &[Ipv4Addr], excluded: &[Ipv4Addr]) -> PcapRoute {
    PcapRoute {
        source_id: SourceId(id),
        include_ips: included.iter().map(|ip| ip.0).collect(),
        exclude_ips: excluded.iter().map(|ip| ip.0).collect(),
    }
}

#[test]
fn ip_header_offset_plain_ipv4() {
    let f = build_frame(None, [1, 2, 3, 4], 8001, &[]);
    assert_eq!(ip_header_offset(&f), Some(14));
}

#[test]
fn ip_header_offset_vlan_tagged_ipv4() {
    let f = build_frame(Some(10), [1, 2, 3, 4], 8001, &[]);
    assert_eq!(ip_header_offset(&f), Some(18));
}

#[test]
fn ip_header_offset_rejects_non_ip_ethertype() {
    let mut buf = vec![0u8; 12];
    buf.extend_from_slice(&[0x08, 0x06]); // ARP
    assert_eq!(ip_header_offset(&buf), None);
}

#[test]
fn ip_header_offset_rejects_vlan_carrying_non_ipv4() {
    let mut buf = vec![0u8; 12];
    buf.extend_from_slice(&[0x81, 0x00]); // VLAN TPID
    buf.extend_from_slice(&[0x00, 0x0a]); // VID 10
    buf.extend_from_slice(&[0x86, 0xdd]); // IPv6 ethertype
    assert_eq!(ip_header_offset(&buf), None);
}

#[test]
fn ip_header_offset_truncated_frame() {
    assert_eq!(ip_header_offset(&[0u8; 13]), None);
    // VLAN header present but inner ethertype truncated
    let mut buf = vec![0u8; 12];
    buf.extend_from_slice(&[0x81, 0x00]);
    buf.extend_from_slice(&[0x00, 0x0a]);
    assert_eq!(ip_header_offset(&buf), None);
}

#[test]
fn extract_src_ip_plain_and_vlan() {
    let plain = build_frame(None, [7, 8, 9, 10], 8001, &[]);
    assert_eq!(extract_src_ip(&plain), Some(Ipv4Addr::new(7, 8, 9, 10)));
    let vlan = build_frame(Some(42), [11, 12, 13, 14], 8001, &[]);
    assert_eq!(extract_src_ip(&vlan), Some(Ipv4Addr::new(11, 12, 13, 14)));
}

#[test]
fn extract_udp_payload_plain_and_vlan() {
    let payload = b"hello-shred";
    let plain = build_frame(None, [1, 2, 3, 4], 8001, payload);
    assert_eq!(extract_udp_payload(&plain), Some(&payload[..]));
    let vlan = build_frame(Some(7), [1, 2, 3, 4], 8001, payload);
    assert_eq!(extract_udp_payload(&vlan), Some(&payload[..]));
}

#[test]
fn extract_udp_payload_rejects_non_udp() {
    let mut f = build_frame(None, [1, 2, 3, 4], 8001, b"x");
    f[14 + 9] = 6; // change proto to TCP
    assert_eq!(extract_udp_payload(&f), None);
}

#[test]
fn extract_udp_payload_rejects_fragmented() {
    let mut f = build_frame(None, [1, 2, 3, 4], 8001, b"x");
    // Set non-zero fragment offset (low 13 bits of flags+fragoff at IP+6).
    f[14 + 6] = 0x00;
    f[14 + 7] = 0x01;
    assert_eq!(extract_udp_payload(&f), None);
}

#[test]
fn route_matches_include_and_exclude() {
    let route = PcapRoute {
        source_id: SourceId(1),
        include_ips: [Ipv4Addr::new(1, 1, 1, 1).0].into_iter().collect(),
        exclude_ips: HashSet::new(),
    };
    assert!(route_matches(&route, Some(Ipv4Addr::new(1, 1, 1, 1))));
    assert!(!route_matches(&route, Some(Ipv4Addr::new(2, 2, 2, 2))));
    assert!(!route_matches(&route, None));

    let route = PcapRoute {
        source_id: SourceId(1),
        include_ips: HashSet::new(),
        exclude_ips: [Ipv4Addr::new(9, 9, 9, 9).0].into_iter().collect(),
    };
    assert!(route_matches(&route, Some(Ipv4Addr::new(1, 1, 1, 1))));
    assert!(!route_matches(&route, Some(Ipv4Addr::new(9, 9, 9, 9))));
}

#[test]
fn routes_without_filter_take_all_and_exclusion_wins() {
    let open = route(1, &[], &[]);
    assert!(route_matches(&open, None));
    assert!(route_matches(&open, Some(Ipv4Addr::new(5, 6, 7, 8))));
    let both = route(1, &[Ipv4Addr::new(5, 5, 5, 5)], &[Ipv4Addr::new(5, 5, 5, 5)]);
    assert!(!route_matches(&both, Some(Ipv4Addr::new(5, 5, 5, 5))));
    assert!(!route_matches(&both, None));
}

#[test]
fn addresses_are_numbers_in_network_order() {
    assert_eq!(Ipv4Addr::new(1, 2, 3, 4).0, 0x0102_0304);
    assert_eq!(Ipv4Addr::new(255, 0, 1, 254).0, 0xff00_01fe);
}

#[test]
fn payload_ends_where_the_udp_header_says() {
    let mut f = build_frame(None, [1, 2, 3, 4], 8001, b"abcdef");
    f[14 + 20 + 5] = 8 + 2;
    assert_eq!(extract_udp_payload(&f), Some(&b"ab"[..]));
    // A length below that of the header counts as no payload.
    f[14 + 20 + 5] = 3;
    assert_eq!(extract_udp_payload(&f), Some(&b""[..]));
    // A length past the end of the frame is refused.
    f[14 + 20 + 5] = 8 + 7;
    assert_eq!(extract_udp_payload(&f), None);
}

#[test]
fn short_ip_headers_are_refused() {
    let mut f = build_frame(None, [1, 2, 3, 4], 8001, b"abcdef");
    f[14] = 0x44; // IHL 4
    assert_eq!(extract_udp_payload(&f), None);
    f[14] = 0x4f; // IHL 15 reaches past the frame
    assert_eq!(extract_udp_payload(&f), None);
    assert_eq!(extract_src_ip(&f[..14 + 15]), None);
}

#[test]
fn a_vlan_tag_changes_nothing_but_the_offset() {
    let plain = build_frame(None, [3, 4, 5, 6], 4444, b"payload");
    let mut tagged = plain.clone();
    for (i, byte) in [0x81u8, 0x00, 0x20, 0x07].into_iter().enumerate() {
        tagged.insert(12 + i, byte);
    }
    assert_eq!(ip_header_offset(&tagged), Some(18));
    assert_eq!(extract_src_ip(&tagged), extract_src_ip(&plain));
    assert_eq!(extract_udp_payload(&tagged), extract_udp_payload(&plain));
    let filter = build_bpf_filter(4444);
    assert_eq!(run_cbpf(&filter, &plain), Outcome::Returned(ACCEPT));
    assert_eq!(run_cbpf(&filter, &tagged), Outcome::Returned(ACCEPT));
}

fn first_byte_key(payload: &[u8]) -> Option<ShredKey> {
    match payload.first() {
        Some(&slot) if slot != 0 => {
            Some(ShredKey { slot: slot as u64, index: 1, shred_type: ShredType::Data })
        }
        _ => None,
    }
}

#[test]
fn capture_routes_counts_and_stamps() {
    let us = Ipv4Addr::new(1, 1, 1, 1);
    let them = Ipv4Addr::new(2, 2, 2, 2);
    let mut capture = Capture::new(vec![
        route(10, &[], &[]),
        route(11, &[us], &[]),
        route(12, &[], &[us]),
        route(13, &[them], &[]),
    ]);
    assert!(capture.has_any_filter);
    let at = Instant { nanos: 77 };

    let events = capture.on_frame(&build_frame(None, [1, 1, 1, 1], 8001, &[9]), at, first_byte_key);
    let sources: Vec<u32> = events.iter().map(|event| event.source.0).collect();
    assert_eq!(sources, vec![10, 11]);
    assert!(events.iter().all(|event| event.received_at == at && event.key.slot == 9));

    // No shred in the payload.
    assert!(capture.on_frame(&build_frame(None, [1, 1, 1, 1], 8001, &[0]), at, first_byte_key).is_empty());
    // No payload at all.
    assert!(capture.on_frame(&[0u8; 20], at, first_byte_key).is_empty());

    let events = capture.on_frame(&build_frame(Some(3), [2, 2, 2, 2], 8001, &[4]), at, first_byte_key);
    let sources: Vec<u32> = events.iter().map(|event| event.source.0).collect();
    assert_eq!(sources, vec![10, 12, 13]);

    assert_eq!(capture.raw_count, 4);
    assert_eq!(capture.parsed_count, 2);
    assert_eq!(capture.route_counts, vec![2, 1, 1, 1]);
}

#[test]
fn capture_without_filters_ignores_addresses() {
    let mut capture = Capture::new(vec![route(1, &[], &[]), route(2, &[], &[])]);
    assert!(!capture.has_any_filter);
    let at = Instant { nanos: 0 };
    let events = capture.on_frame(&build_frame(None, [8, 8, 8, 8], 1, &[5]), at, first_byte_key);
    assert_eq!(events.len(), 2);
    assert_eq!(capture.route_counts, vec![1, 1]);
}

#[test]
fn capture_setup_follows_the_configuration() {
    let setup = capture_setup(12345, "eth0", 4096);
    assert_eq!(setup.filter[11].k, 12345);
    assert!(setup.bind_interface);
    assert_eq!(setup.recv_buf, Some(4096));
    assert_eq!(setup.timeout_micros, 100_000);
    let setup = capture_setup(1, "", 0);
    assert!(!setup.bind_interface);
    assert_eq!(setup.recv_buf, None);
    // The size is handed on as a C int.
    assert_eq!(capture_setup(1, "", 0x1_0000_0005).recv_buf, Some(5));
}

#[test]
fn setup_steps_follow_each_other() {
    let setup = capture_setup(1, "eth0", 4096);
    let done = StepOutcome::Done;
    let mut step = SetupStep::Open;
    let mut seen = vec![step];
    while !matches!(step, SetupStep::Capture { .. }) {
        step = setup.next_step(step, done);
        seen.push(step);
    }
    assert_eq!(
        seen,
        vec![
            SetupStep::Open,
            SetupStep::AttachFilter,
            SetupStep::FindInterface,
            SetupStep::Bind,
            SetupStep::SetRecvBuf(4096),
            SetupStep::SetTimeout,
            SetupStep::EnableTimestamps,
            SetupStep::Capture { kernel_timestamps: true },
        ]
    );
    let plain = capture_setup(1, "", 0);
    assert_eq!(plain.next_step(SetupStep::AttachFilter, done), SetupStep::SetTimeout);
}

#[test]
fn failed_setup_steps_say_why() {
    let setup = capture_setup(1, "eth0", 4096);
    let failed = |raw_os_error| StepOutcome::Failed { raw_os_error };
    let fail = |step, code| setup.next_step(step, failed(code));
    assert_eq!(fail(SetupStep::Open, Some(1)), SetupStep::Fail(SetupFailure::PermissionDenied));
    assert_eq!(fail(SetupStep::Open, Some(13)), SetupStep::Fail(SetupFailure::Os));
    assert_eq!(fail(SetupStep::Open, None), SetupStep::Fail(SetupFailure::Os));
    assert_eq!(fail(SetupStep::AttachFilter, Some(1)), SetupStep::Fail(SetupFailure::Os));
    assert_eq!(
        fail(SetupStep::FindInterface, None),
        SetupStep::Fail(SetupFailure::InterfaceNotFound)
    );
    assert_eq!(fail(SetupStep::Bind, Some(19)), SetupStep::Fail(SetupFailure::Os));
    assert_eq!(fail(SetupStep::SetRecvBuf(4096), Some(1)), SetupStep::SetTimeout);
    assert_eq!(fail(SetupStep::SetTimeout, Some(1)), SetupStep::EnableTimestamps);
    assert_eq!(
        fail(SetupStep::EnableTimestamps, Some(92)),
        SetupStep::Capture { kernel_timestamps: false }
    );
}
