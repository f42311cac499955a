//! The mathematical model of a captured Ethernet frame: where the IPv4 header
//! starts, and what its fields and the UDP header behind it say.
use vstd::prelude::*;

verus! {

/// Ethertype of IPv4.
pub const ETHERTYPE_IPV4: u16 = 0x0800;

/// Ethertype (TPID) of a single 802.1Q VLAN tag.
pub const ETHERTYPE_VLAN: u16 = 0x8100;

/// IP protocol number of UDP.
pub const PROTO_UDP: u8 = 17;

/// The two bytes at `at`, read in network byte order.
pub open spec fn be16(s: Seq<u8>, at: int) -> int {
    s[at] as int * 256 + s[at + 1] as int
}

/// Offset of the IPv4 header: 14 in a plain frame, 18 behind one VLAN tag, and
/// none in a frame that is too short or carries something else.
pub open spec fn ip_start(frame: Seq<u8>) -> Option<int> {
    if frame.len() >= 14 && be16(frame, 12) == ETHERTYPE_IPV4 {
        Some(14)
    } else if frame.len() >= 18 && be16(frame, 12) == ETHERTYPE_VLAN && be16(frame, 16)
        == ETHERTYPE_IPV4 {
        Some(18)
    } else {
        None
    }
}

/// Length in bytes that the IPv4 header at `ip` claims for itself (its IHL field).
pub open spec fn ip_header_len(frame: Seq<u8>, ip: int) -> int {
    (frame[ip] as int % 16) * 4
}

/// Protocol field of the IPv4 header at `ip`.
pub open spec fn ip_protocol(frame: Seq<u8>, ip: int) -> u8 {
    frame[ip + 9]
}

/// Fragment offset of the IPv4 header at `ip`: the low 13 bits of the flags word.
pub open spec fn fragment_offset(frame: Seq<u8>, ip: int) -> int {
    be16(frame, ip + 6) % 8192
}

/// Offset of the UDP header that follows the IPv4 header at `ip`.
pub open spec fn udp_start(frame: Seq<u8>, ip: int) -> int {
    ip + ip_header_len(frame, ip)
}

/// Destination port of the UDP header that follows the IPv4 header at `ip`.
pub open spec fn udp_destination(frame: Seq<u8>, ip: int) -> int {
    be16(frame, udp_start(frame, ip) + 2)
}

/// The frame holds an unfragmented UDP datagram for `port` over IPv4, plain or
/// behind one VLAN tag, and is long enough to show it.
pub open spec fn is_udp_to_port(frame: Seq<u8>, port: u16) -> bool {
    match ip_start(frame) {
        Some(ip) => {
            &&& frame.len() >= udp_start(frame, ip) + 4
            &&& frame.len() >= ip + 10
            &&& ip_protocol(frame, ip) == PROTO_UDP
            &&& fragment_offset(frame, ip) == 0
            &&& udp_destination(frame, ip) == port
        },
        None => false,
    }
}

/// `frame` with an 802.1Q tag put in front of its ethertype.
pub open spec fn with_vlan_tag(frame: Seq<u8>, tci_high: u8, tci_low: u8) -> Seq<u8> {
    frame.subrange(0, 12) + seq![0x81u8, 0x00u8, tci_high, tci_low] + frame.subrange(
        12,
        frame.len() as int,
    )
}

/// Reading two bytes in network order, as bit operations and as arithmetic.
proof fn lemma_be16(high: u8, low: u8)
    ensures
        ((high as u16) << 8) | (low as u16) == high as int * 256 + low as int,
{
    assert(((high as u16) << 8) | (low as u16) == high * 256 + low) by (bit_vector);
}

/// Two bytes in network byte order as a number.
pub fn read_be16(buf: &[u8], at: usize) -> (value: u16)
    requires
        at + 1 < buf@.len(),
    ensures
        value as int == be16(buf@, at as int),
{
    proof {
        lemma_be16(buf@[at as int], buf@[at + 1]);
    }
    ((buf[at] as u16) << 8) | (buf[at + 1] as u16)
}

/// Two bytes in network order: the first counts 256 for each of its units, the second one.
pub proof fn law_network_order(s: Seq<u8>, at: int)
    ensures
        be16(s, at) / 256 == s[at],
        be16(s, at) % 256 == s[at + 1],
        0 <= be16(s, at) < 65536,
{
}

/// Behind two addresses of six bytes each, the bytes 08 00 announce an IPv4 header at 14,
/// and 81 00, two bytes of tag and 08 00 one at 18.
pub proof fn law_ethertype_announces_the_ip_header(macs: Seq<u8>, tci: Seq<u8>, rest: Seq<u8>)
    requires
        macs.len() == 12,
        tci.len() == 2,
    ensures
        ip_start(macs + seq![0x08u8, 0x00u8] + rest) == Some(14int),
        ip_start(macs + seq![0x81u8, 0x00u8] + tci + seq![0x08u8, 0x00u8] + rest) == Some(18int),
{
    let plain = macs + seq![0x08u8, 0x00u8] + rest;
    assert(plain[12] == 0x08 && plain[13] == 0x00);
    let tagged = macs + seq![0x81u8, 0x00u8] + tci + seq![0x08u8, 0x00u8] + rest;
    assert(tagged[12] == 0x81 && tagged[13] == 0x00);
    assert(tagged[16] == 0x08 && tagged[17] == 0x00);
}

/// Only such a frame has an IPv4 header.
pub proof fn law_only_ipv4_frames_have_an_ip_header(buf: Seq<u8>)
    ensures
        ip_start(buf) matches Some(ip) ==> {
            ||| ip == 14 && buf.len() >= 14 && buf[12] == 0x08 && buf[13] == 0x00
            ||| ip == 18 && buf.len() >= 18 && buf[12] == 0x81 && buf[13] == 0x00 && buf[16] == 0x08
                && buf[17] == 0x00
        },
        ip_start(buf) is None ==> {
            &&& buf.len() >= 14 ==> !(buf[12] == 0x08 && buf[13] == 0x00)
            &&& buf.len() >= 18 ==> !(buf[12] == 0x81 && buf[13] == 0x00 && buf[16] == 0x08
                && buf[17] == 0x00)
        },
{
}

/// What the fields of an IPv4 header and of the UDP header behind it say, by their bytes.
pub proof fn law_header_fields_by_their_bytes(buf: Seq<u8>, ip: int)
    ensures
        ip_protocol(buf, ip) == buf[ip + 9],
        fragment_offset(buf, ip) == (buf[ip + 6] % 32) * 256 + buf[ip + 7],
        udp_start(buf, ip) - ip == ip_header_len(buf, ip),
        0 <= ip_header_len(buf, ip) <= 60,
        ip_header_len(buf, ip) % 4 == 0,
        ip_header_len(buf, ip) / 4 == buf[ip] % 16,
        udp_destination(buf, ip) / 256 == buf[udp_start(buf, ip) + 2],
        udp_destination(buf, ip) % 256 == buf[udp_start(buf, ip) + 3],
{
    let high = buf[ip + 6] as int;
    assert((high * 256 + buf[ip + 7] as int) % 8192 == (high % 32) * 256 + buf[ip + 7] as int);
}

/// A frame is UDP to `port` exactly where its bytes say so: an IPv4 header behind plain or
/// tagged ethertypes, protocol 17, no fragment offset, and the port's two bytes in the third
/// and fourth place behind the header.
pub proof fn law_udp_to_port_by_its_bytes(buf: Seq<u8>, port: u16)
    ensures
        is_udp_to_port(buf, port) <==> {
            ||| buf.len() >= 14 && buf[12] == 0x08 && buf[13] == 0x00 && udp_bytes_to(
                buf,
                14,
                port,
            )
            ||| buf.len() >= 18 && buf[12] == 0x81 && buf[13] == 0x00 && buf[16] == 0x08 && buf[17]
                == 0x00 && udp_bytes_to(buf, 18, port)
        },
{
    law_only_ipv4_frames_have_an_ip_header(buf);
    law_header_fields_by_their_bytes(buf, 14);
    law_header_fields_by_their_bytes(buf, 18);
}

/// The bytes from `ip` on are those of an unfragmented UDP datagram to `port`, as far as its
/// destination port.
pub open spec fn udp_bytes_to(buf: Seq<u8>, ip: int, port: u16) -> bool {
    let udp = ip + (buf[ip] % 16) * 4;
    &&& buf.len() >= ip + 10
    &&& buf.len() >= udp + 4
    &&& buf[ip + 9] == 17
    &&& buf[ip + 6] % 32 == 0
    &&& buf[ip + 7] == 0
    &&& buf[udp + 2] * 256 + buf[udp + 3] == port
}

} // verus!
