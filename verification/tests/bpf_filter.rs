use orbshred::sources::bpf_filter::{build_bpf_filter, run_cbpf, Outcome, SockFilter, ACCEPT, DROP};

const PORT: u16 = 8001;
const WRONG_PORT: u16 = 9999;

fn value(program: &[SockFilter], packet: &[u8]) -> u32 {
    match run_cbpf(program, packet) {
        Outcome::Returned(value) => value,
        other => panic!("filter ended with {:?}", other),
    }
}

/// Build an Ethernet+IPv4+UDP frame with optional 802.1Q VLAN tag.
fn build_frame(vlan_tag: Option<u16>, dst_port: u16, payload: &[u8]) -> Vec<u8> {
    let mut buf = Vec::new();
    buf.extend_from_slice(&[0u8; 12]); // dst MAC + src MAC
    if let Some(vid) = vlan_tag {
        buf.extend_from_slice(&[0x81, 0x00]);
        buf.extend_from_slice(&(vid & 0x0fff).to_be_bytes());
    }
    buf.extend_from_slice(&[0x08, 0x00]); // ethertype IPv4
    let total_len = (20 + 8 + payload.len()) as u16;
    buf.push(0x45); // version 4, IHL 5
    buf.push(0x00); // TOS
    buf.extend_from_slice(&total_len.to_be_bytes());
    buf.extend_from_slice(&[0x00, 0x00]); // identification
    buf.extend_from_slice(&[0x00, 0x00]); // flags+fragoff
    buf.push(64); // TTL
    buf.push(17); // proto = UDP
    buf.extend_from_slice(&[0x00, 0x00]); // checksum (unused)
    buf.extend_from_slice(&[1, 2, 3, 4]); // src IP
    buf.extend_from_slice(&[10, 0, 0, 1]); // dst IP
    buf.extend_from_slice(&1234u16.to_be_bytes()); // UDP src port
    buf.extend_from_slice(&dst_port.to_be_bytes());
    let udp_len = (8 + payload.len()) as u16;
    buf.extend_from_slice(&udp_len.to_be_bytes());
    buf.extend_from_slice(&[0x00, 0x00]); // UDP checksum
    buf.extend_from_slice(payload);
    buf
}

fn set_ip_proto(frame: &mut [u8], vlan: bool, proto: u8) {
    let ip = if vlan { 18 } else { 14 };
    frame[ip + 9] = proto;
}

fn set_ip_fragoff(frame: &mut [u8], vlan: bool, fragoff: u16) {
    let ip = if vlan { 18 } else { 14 };
    frame[ip + 6] = (fragoff >> 8) as u8;
    frame[ip + 7] = (fragoff & 0xff) as u8;
}

#[test]
fn accepts_plain_ipv4_udp_on_configured_port() {
    let prog = build_bpf_filter(PORT);
    let frame = build_frame(None, PORT, b"hello");
    assert_eq!(value(&prog, &frame), ACCEPT);
}

#[test]
fn drops_plain_ipv4_udp_on_wrong_port() {
    let prog = build_bpf_filter(PORT);
    let frame = build_frame(None, WRONG_PORT, b"hello");
    assert_eq!(value(&prog, &frame), DROP);
}

#[test]
fn accepts_vlan_tagged_ipv4_udp_on_configured_port() {
    let prog = build_bpf_filter(PORT);
    let frame = build_frame(Some(42), PORT, b"hello");
    assert_eq!(value(&prog, &frame), ACCEPT);
}

#[test]
fn drops_vlan_tagged_ipv4_udp_on_wrong_port() {
    let prog = build_bpf_filter(PORT);
    let frame = build_frame(Some(42), WRONG_PORT, b"hello");
    assert_eq!(value(&prog, &frame), DROP);
}

#[test]
fn drops_non_ip_ethertype() {
    let prog = build_bpf_filter(PORT);
    let mut frame = vec![0u8; 60];
    frame[12] = 0x08;
    frame[13] = 0x06; // ARP
    assert_eq!(value(&prog, &frame), DROP);
}

#[test]
fn drops_vlan_carrying_non_ipv4() {
    let prog = build_bpf_filter(PORT);
    let mut frame = vec![0u8; 64];
    frame[12] = 0x81;
    frame[13] = 0x00; // VLAN TPID
    frame[14] = 0x00;
    frame[15] = 0x0a; // VID 10
    frame[16] = 0x86;
    frame[17] = 0xdd; // IPv6 inner
    assert_eq!(value(&prog, &frame), DROP);
}

#[test]
fn drops_ipv4_tcp_on_configured_port() {
    let prog = build_bpf_filter(PORT);
    let mut frame = build_frame(None, PORT, b"hello");
    set_ip_proto(&mut frame, false, 6);
    assert_eq!(value(&prog, &frame), DROP);
}

#[test]
fn drops_vlan_ipv4_tcp_on_configured_port() {
    let prog = build_bpf_filter(PORT);
    let mut frame = build_frame(Some(7), PORT, b"hello");
    set_ip_proto(&mut frame, true, 6);
    assert_eq!(value(&prog, &frame), DROP);
}

#[test]
fn drops_fragmented_ipv4() {
    let prog = build_bpf_filter(PORT);
    let mut frame = build_frame(None, PORT, b"hello");
    set_ip_fragoff(&mut frame, false, 0x0001);
    assert_eq!(value(&prog, &frame), DROP);
}

#[test]
fn drops_fragmented_vlan_ipv4() {
    let prog = build_bpf_filter(PORT);
    let mut frame = build_frame(Some(7), PORT, b"hello");
    set_ip_fragoff(&mut frame, true, 0x0001);
    assert_eq!(value(&prog, &frame), DROP);
}

#[test]
fn more_fragments_flag_alone_does_not_drop() {
    // MF=1 (bit 13, 0x2000) with offset=0 is the first fragment of a
    // datagram, with the full UDP header present. The filter masks 0x1fff
    // (offset only), so this should pass.
    let prog = build_bpf_filter(PORT);
    let mut frame = build_frame(None, PORT, b"hello");
    set_ip_fragoff(&mut frame, false, 0x2000);
    assert_eq!(value(&prog, &frame), ACCEPT);
}

#[test]
fn accept_value_is_full_snap_length() {
    // The kernel snaps the packet to this length.
    let prog = build_bpf_filter(PORT);
    let frame = build_frame(None, PORT, b"x");
    assert_eq!(value(&prog, &frame), 0xffff);
}

#[test]
fn port_immediates_match_configured_port() {
    // Both port-comparison instructions (PC 11, PC 18) must carry the
    // configured port verbatim.
    let prog = build_bpf_filter(12345);
    assert_eq!(prog[11].k, 12345);
    assert_eq!(prog[18].k, 12345);
}

#[test]
fn rejects_truncated_vlan_header() {
    let prog = build_bpf_filter(PORT);
    let mut frame = vec![0u8; 14];
    frame[12] = 0x08;
    frame[13] = 0x06; // ARP: drop path at PC 1, 2, drop
    assert_eq!(value(&prog, &frame), DROP);
}

#[test]
fn short_frames_end_in_a_load_out_of_bounds() {
    let prog = build_bpf_filter(PORT);
    assert_eq!(run_cbpf(&prog, &[0u8; 13]), Outcome::OutOfBounds);
    // A VLAN tag without the inner ethertype.
    let mut frame = vec![0u8; 16];
    frame[12] = 0x81;
    assert_eq!(run_cbpf(&prog, &frame), Outcome::OutOfBounds);
    // Every cut of an acceptable frame before its destination port.
    let full = build_frame(Some(3), PORT, b"hello");
    for len in 18..18 + 24 {
        assert_eq!(run_cbpf(&prog, &full[..len]), Outcome::OutOfBounds);
    }
    assert_eq!(run_cbpf(&prog, &full[..18 + 24]), Outcome::Returned(ACCEPT));
}

#[test]
fn options_in_the_ip_header_move_the_port() {
    let prog = build_bpf_filter(PORT);
    let mut frame = build_frame(None, PORT, b"hello");
    frame[14] = 0x46; // IHL 6: four bytes of options
    assert_eq!(value(&prog, &frame), DROP);
    for _ in 0..4 {
        frame.insert(34, 0);
    }
    assert_eq!(value(&prog, &frame), ACCEPT);
}

#[test]
fn malformed_programs_get_stuck() {
    assert_eq!(run_cbpf(&[], &[]), Outcome::Stuck);
    let unknown = SockFilter { code: 0x99, jt: 0, jf: 0, k: 0 };
    assert_eq!(run_cbpf(&[unknown], &[1, 2]), Outcome::Stuck);
    let jump = SockFilter { code: 0x15, jt: 200, jf: 0, k: 0 };
    assert_eq!(run_cbpf(&[jump], &[]), Outcome::Stuck);
}
