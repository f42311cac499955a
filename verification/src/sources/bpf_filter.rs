//! Classic BPF (cBPF) socket filter of the packet-capture source.
//!
//! The filter accepts UDP traffic to a configured port on either plain
//! Ethernet+IPv4 frames or 802.1Q VLAN-tagged Ethernet+IPv4 frames; it drops
//! non-IP, non-UDP, fragmented IPv4, wrong-port, and VLAN-carrying-non-IPv4
//! traffic.
use vstd::prelude::*;

use crate::frame;

verus! {

/// One cBPF instruction, with the fields of the kernel's `struct sock_filter`.
#[derive(Clone, Copy, Debug)]
pub struct SockFilter {
    pub code: u16,
    pub jt: u8,
    pub jf: u8,
    pub k: u32,
}

/// Value with which the filter keeps a frame: the kernel snaps it to this length.
pub const ACCEPT: u32 = 0xffff;

/// Value with which the filter drops a frame.
pub const DROP: u32 = 0;

/// How a cBPF program ends on a packet.
#[derive(Clone, Copy, Debug, PartialEq, Eq, Structural)]
pub enum Outcome {
    /// A `ret` instruction gave this value.
    Returned(u32),
    /// A load reached past the end of the packet.
    OutOfBounds,
    /// The program counter left the program, or met an unknown opcode.
    Stuck,
}

/// What the kernel makes of an outcome: a load past the end of the packet ends
/// the program with zero, which drops the packet.
pub open spec fn verdict(outcome: Outcome) -> u32 {
    match outcome {
        Outcome::Returned(value) => value,
        _ => DROP,
    }
}

/// Runs `program` on `packet` from `pc`, with `a` in the accumulator and `x` in
/// the index register. The opcodes are those that the filter uses:
/// `ld [k]` of a half word (0x28) and a byte (0x30), `ld [x+k]` of a half word
/// (0x48), `ldx 4*([k]&0xf)` (0xb1), `jeq` (0x15), `jset` (0x45) and `ret` (0x06).
pub open spec fn run_from(
    program: Seq<SockFilter>,
    packet: Seq<u8>,
    pc: int,
    a: u32,
    x: u32,
) -> Outcome
    decreases if pc < program.len() { program.len() - pc } else { 0 },
{
    if pc < 0 || pc >= program.len() {
        Outcome::Stuck
    } else {
        let inst = program[pc];
        let k = inst.k as int;
        if inst.code == 0x28 {
            if k + 2 <= packet.len() {
                run_from(program, packet, pc + 1, frame::be16(packet, k) as u32, x)
            } else {
                Outcome::OutOfBounds
            }
        } else if inst.code == 0x30 {
            if k < packet.len() {
                run_from(program, packet, pc + 1, packet[k] as u32, x)
            } else {
                Outcome::OutOfBounds
            }
        } else if inst.code == 0x15 {
            run_from(program, packet, pc + 1 + if a == inst.k { inst.jt } else { inst.jf }, a, x)
        } else if inst.code == 0x45 {
            run_from(
                program,
                packet,
                pc + 1 + if a & inst.k != 0 { inst.jt } else { inst.jf },
                a,
                x,
            )
        } else if inst.code == 0xb1 {
            if k < packet.len() {
                run_from(program, packet, pc + 1, a, frame::ip_header_len(packet, k) as u32)
            } else {
                Outcome::OutOfBounds
            }
        } else if inst.code == 0x48 {
            if x + k + 2 <= packet.len() {
                run_from(program, packet, pc + 1, frame::be16(packet, x + k) as u32, x)
            } else {
                Outcome::OutOfBounds
            }
        } else if inst.code == 0x06 {
            Outcome::Returned(inst.k)
        } else {
            Outcome::Stuck
        }
    }
}

/// Runs `program` on `packet` from its first instruction, with both registers zero.
pub open spec fn run_program(program: Seq<SockFilter>, packet: Seq<u8>) -> Outcome {
    run_from(program, packet, 0, 0, 0)
}

/// An instruction by its fields.
pub open spec fn inst(code: u16, jt: u8, jf: u8, k: u32) -> SockFilter {
    SockFilter { code, jt, jf, k }
}

/// The filter program for `port`.
pub open spec fn filter_program(port: u16) -> Seq<SockFilter> {
    seq![
        inst(0x28, 0, 0, 12),
        inst(0x15, 3, 0, 0x0800),
        inst(0x15, 0, 17, 0x8100),
        inst(0x28, 0, 0, 16),
        inst(0x15, 7, 15, 0x0800),
        inst(0x30, 0, 0, 23),
        inst(0x15, 0, 13, 0x11),
        inst(0x28, 0, 0, 20),
        inst(0x45, 11, 0, 0x1fff),
        inst(0xb1, 0, 0, 14),
        inst(0x48, 0, 0, 16),
        inst(0x15, 7, 8, port as u32),
        inst(0x30, 0, 0, 27),
        inst(0x15, 0, 6, 0x11),
        inst(0x28, 0, 0, 24),
        inst(0x45, 4, 0, 0x1fff),
        inst(0xb1, 0, 0, 18),
        inst(0x48, 0, 0, 20),
        inst(0x15, 0, 1, port as u32),
        inst(0x06, 0, 0, 0xffff),
        inst(0x06, 0, 0, 0),
    ]
}

/// Masking a half word with 0x1fff keeps its low 13 bits.
proof fn lemma_fragment_mask(word: u32)
    ensures
        word & 0x1fff == word % 8192,
{
    assert(word & 0x1fff == word % 8192) by (bit_vector);
}

/// From its proto check on, the filter decides a frame whose IPv4 header starts
/// at `ip` (14 with the checks at `pc` 5, 18 with those at 12).
proof fn lemma_ip_path(port: u16, packet: Seq<u8>, pc: int, ip: int, a: u32)
    requires
        pc == 5 && ip == 14 || pc == 12 && ip == 18,
        packet.len() >= ip,
    ensures
        ({
            let outcome = run_from(filter_program(port), packet, pc, a, 0);
            &&& outcome !is Stuck
            &&& verdict(outcome) == (if {
                &&& packet.len() >= frame::udp_start(packet, ip) + 4
                &&& packet.len() >= ip + 10
                &&& frame::ip_protocol(packet, ip) == frame::PROTO_UDP
                &&& frame::fragment_offset(packet, ip) == 0
                &&& frame::udp_destination(packet, ip) == port
            } {
                ACCEPT
            } else {
                DROP
            })
        }),
{
    let program = filter_program(port);
    let x = frame::ip_header_len(packet, ip) as u32;
    let flags = frame::be16(packet, ip + 6) as u32;
    let dst = frame::be16(packet, ip + x + 2) as u32;
    lemma_fragment_mask(flags);
    assert(forall|b: u32, y: u32|
        #[trigger] run_from(program, packet, 19, b, y) == Outcome::Returned(ACCEPT));
    assert(forall|b: u32, y: u32|
        #[trigger] run_from(program, packet, 20, b, y) == Outcome::Returned(DROP));
    if packet.len() >= ip + 10 && packet[ip + 9] == 17 {
        let proto = packet[ip + 9] as u32;
        assert(run_from(program, packet, pc, a, 0) == run_from(program, packet, pc + 1, proto, 0));
        assert(run_from(program, packet, pc + 1, proto, 0) == run_from(
            program,
            packet,
            pc + 2,
            proto,
            0,
        ));
        assert(run_from(program, packet, pc + 2, proto, 0) == run_from(
            program,
            packet,
            pc + 3,
            flags,
            0,
        ));
        if flags & 0x1fff == 0 {
            assert(run_from(program, packet, pc + 3, flags, 0) == run_from(
                program,
                packet,
                pc + 4,
                flags,
                0,
            ));
            assert(run_from(program, packet, pc + 4, flags, 0) == run_from(
                program,
                packet,
                pc + 5,
                flags,
                x,
            ));
            if packet.len() >= ip + x + 4 {
                assert(run_from(program, packet, pc + 5, flags, x) == run_from(
                    program,
                    packet,
                    pc + 6,
                    dst,
                    x,
                ));
                assert(run_from(program, packet, pc + 6, dst, x) == run_from(
                    program,
                    packet,
                    if dst == port {
                        19
                    } else {
                        20
                    },
                    dst,
                    x,
                ));
            }
        } else {
            assert(run_from(program, packet, pc + 3, flags, 0) == run_from(
                program,
                packet,
                20,
                flags,
                0,
            ));
        }
    } else if packet.len() >= ip + 10 {
        let proto = packet[ip + 9] as u32;
        assert(run_from(program, packet, pc, a, 0) == run_from(program, packet, pc + 1, proto, 0));
        assert(run_from(program, packet, pc + 1, proto, 0) == run_from(
            program,
            packet,
            20,
            proto,
            0,
        ));
    }
}

/// The filter accepts a frame exactly when it holds an unfragmented UDP datagram
/// for the configured port over plain or VLAN-tagged IPv4, and drops every other
/// frame, truncated ones among them. It never runs off its end.
pub proof fn law_filter_accepts_exactly_udp_to_port(port: u16, packet: Seq<u8>)
    ensures
        run_program(filter_program(port), packet) !is Stuck,
        verdict(run_program(filter_program(port), packet)) == (if frame::is_udp_to_port(
            packet,
            port,
        ) {
            ACCEPT
        } else {
            DROP
        }),
{
    let program = filter_program(port);
    assert(forall|b: u32, y: u32|
        #[trigger] run_from(program, packet, 20, b, y) == Outcome::Returned(DROP));
    if packet.len() >= 14 {
        let ethertype = frame::be16(packet, 12) as u32;
        assert(run_from(program, packet, 0, 0, 0) == run_from(program, packet, 1, ethertype, 0));
        if ethertype == 0x0800 {
            assert(run_from(program, packet, 1, ethertype, 0) == run_from(
                program,
                packet,
                5,
                ethertype,
                0,
            ));
            lemma_ip_path(port, packet, 5, 14, ethertype);
        } else {
            assert(run_from(program, packet, 1, ethertype, 0) == run_from(
                program,
                packet,
                2,
                ethertype,
                0,
            ));
            if ethertype == 0x8100 {
                assert(run_from(program, packet, 2, ethertype, 0) == run_from(
                    program,
                    packet,
                    3,
                    ethertype,
                    0,
                ));
                if packet.len() >= 18 {
                    let inner = frame::be16(packet, 16) as u32;
                    assert(run_from(program, packet, 3, ethertype, 0) == run_from(
                        program,
                        packet,
                        4,
                        inner,
                        0,
                    ));
                    if inner == 0x0800 {
                        assert(run_from(program, packet, 4, inner, 0) == run_from(
                            program,
                            packet,
                            12,
                            inner,
                            0,
                        ));
                        lemma_ip_path(port, packet, 12, 18, inner);
                    } else {
                        assert(run_from(program, packet, 4, inner, 0) == run_from(
                            program,
                            packet,
                            20,
                            inner,
                            0,
                        ));
                    }
                }
            } else {
                assert(run_from(program, packet, 2, ethertype, 0) == run_from(
                    program,
                    packet,
                    20,
                    ethertype,
                    0,
                ));
            }
        }
    }
}

/// Builds the cBPF program for the capture socket: 21 instructions, the last two
/// of which return [`ACCEPT`] and [`DROP`].
pub fn build_bpf_filter(port: u16) -> (filter: [SockFilter; 21])
    ensures
        filter@ == filter_program(port),
        forall|packet: Seq<u8>| #[trigger]
            verdict(run_program(filter@, packet)) == (if frame::is_udp_to_port(packet, port) {
                ACCEPT
            } else {
                DROP
            }),
{
    let port_u32: u32 = port as u32;
    let filter = [
        // 0: load ethertype @12
        SockFilter { code: 0x28, jt: 0, jf: 0, k: 12 },
        // 1: IPv4 goes on at 5
        SockFilter { code: 0x15, jt: 3, jf: 0, k: 0x0800 },
        // 2: a VLAN tag falls through, anything else is dropped
        SockFilter { code: 0x15, jt: 0, jf: 17, k: 0x8100 },
        // 3: load inner ethertype @16
        SockFilter { code: 0x28, jt: 0, jf: 0, k: 16 },
        // 4: IPv4 behind the tag goes on at 12, anything else is dropped
        SockFilter { code: 0x15, jt: 7, jf: 15, k: 0x0800 },
        // 5: load IP proto @23 (14+9)
        SockFilter { code: 0x30, jt: 0, jf: 0, k: 23 },
        // 6: UDP falls through
        SockFilter { code: 0x15, jt: 0, jf: 13, k: 0x11 },
        // 7: load flags and fragment offset @20 (14+6)
        SockFilter { code: 0x28, jt: 0, jf: 0, k: 20 },
        // 8: a fragment offset other than zero is dropped
        SockFilter { code: 0x45, jt: 11, jf: 0, k: 0x1fff },
        // 9: X = IHL*4 from byte @14
        SockFilter { code: 0xb1, jt: 0, jf: 0, k: 14 },
        // 10: load UDP destination port @x+16
        SockFilter { code: 0x48, jt: 0, jf: 0, k: 16 },
        // 11: the configured port is accepted (19), any other dropped (20)
        SockFilter { code: 0x15, jt: 7, jf: 8, k: port_u32 },
        // 12: load IP proto @27 (18+9)
        SockFilter { code: 0x30, jt: 0, jf: 0, k: 27 },
        // 13: UDP falls through
        SockFilter { code: 0x15, jt: 0, jf: 6, k: 0x11 },
        // 14: load flags and fragment offset @24 (18+6)
        SockFilter { code: 0x28, jt: 0, jf: 0, k: 24 },
        // 15: a fragment offset other than zero is dropped
        SockFilter { code: 0x45, jt: 4, jf: 0, k: 0x1fff },
        // 16: X = IHL*4 from byte @18
        SockFilter { code: 0xb1, jt: 0, jf: 0, k: 18 },
        // 17: load UDP destination port @x+20
        SockFilter { code: 0x48, jt: 0, jf: 0, k: 20 },
        // 18: the configured port is accepted, any other dropped
        SockFilter { code: 0x15, jt: 0, jf: 1, k: port_u32 },
        // 19: accept
        SockFilter { code: 0x06, jt: 0, jf: 0, k: 0xffff },
        // 20: drop
        SockFilter { code: 0x06, jt: 0, jf: 0, k: 0 },
    ];
    proof {
        assert(filter@ =~= filter_program(port));
        assert forall|packet: Seq<u8>| #[trigger]
            verdict(run_program(filter@, packet)) == (if frame::is_udp_to_port(packet, port) {
                ACCEPT
            } else {
                DROP
            }) by {
            law_filter_accepts_exactly_udp_to_port(port, packet);
        }
    }
    filter
}

/// Interprets a cBPF program on a packet.
pub fn run_cbpf(program: &[SockFilter], packet: &[u8]) -> (outcome: Outcome)
    ensures
        outcome == run_program(program@, packet@),
{
    let mut a: u32 = 0;
    let mut x: u32 = 0;
    let mut pc: usize = 0;
    while pc < program.len()
        invariant
            run_from(program@, packet@, pc as int, a, x) == run_program(program@, packet@),
        decreases program@.len() - pc,
    {
        let step: SockFilter = program[pc];
        let mut jump: usize = 0;
        if step.code == 0x28 {
            if step.k as u64 + 2 > packet.len() as u64 {
                return Outcome::OutOfBounds;
            }
            a = frame::read_be16(packet, step.k as usize) as u32;
        } else if step.code == 0x30 {
            if step.k as u64 >= packet.len() as u64 {
                return Outcome::OutOfBounds;
            }
            a = packet[step.k as usize] as u32;
        } else if step.code == 0x15 {
            jump = if a == step.k { step.jt as usize } else { step.jf as usize };
        } else if step.code == 0x45 {
            jump = if a & step.k != 0 { step.jt as usize } else { step.jf as usize };
        } else if step.code == 0xb1 {
            if step.k as u64 >= packet.len() as u64 {
                return Outcome::OutOfBounds;
            }
            let byte: u8 = packet[step.k as usize];
            assert(byte & 0x0f == byte % 16) by (bit_vector);
            x = (byte & 0x0f) as u32 * 4;
        } else if step.code == 0x48 {
            let off: u64 = x as u64 + step.k as u64;
            if off + 2 > packet.len() as u64 {
                return Outcome::OutOfBounds;
            }
            a = frame::read_be16(packet, off as usize) as u32;
        } else if step.code == 0x06 {
            return Outcome::Returned(step.k);
        } else {
            return Outcome::Stuck;
        }
        if program.len() - pc <= jump + 1 {
            assert(run_from(program@, packet@, pc + 1 + jump, a, x) == Outcome::Stuck);
            return Outcome::Stuck;
        }
        pc = pc + 1 + jump;
    }
    Outcome::Stuck
}

/// The filter's verdict on a frame by the frame's bytes: kept at full length where they are
/// those of an unfragmented UDP datagram to the port, over plain or tagged IPv4, and dropped
/// otherwise.
pub proof fn law_verdict_by_the_bytes(port: u16, buf: Seq<u8>, ip: int)
    requires
        ip == 14 && buf.len() >= 14 && buf[12] == 0x08 && buf[13] == 0x00 || ip == 18 && buf.len()
            >= 18 && buf[12] == 0x81 && buf[13] == 0x00 && buf[16] == 0x08 && buf[17] == 0x00,
    ensures
        verdict(run_program(filter_program(port), buf)) == (if {
            &&& buf.len() >= ip + 10
            &&& buf.len() >= ip + (buf[ip] % 16) * 4 + 4
            &&& buf[ip + 9] == 17
            &&& buf[ip + 6] % 32 == 0
            &&& buf[ip + 7] == 0
            &&& buf[ip + (buf[ip] % 16) * 4 + 2] * 256 + buf[ip + (buf[ip] % 16) * 4 + 3] == port
        } {
            0xffffu32
        } else {
            0u32
        }),
{
    law_filter_accepts_exactly_udp_to_port(port, buf);
    frame::law_udp_to_port_by_its_bytes(buf, port);
}

/// The filter drops every frame without an IPv4 header.
pub proof fn law_frames_without_ipv4_are_dropped(port: u16, buf: Seq<u8>)
    requires
        buf.len() >= 14 ==> !(buf[12] == 0x08 && buf[13] == 0x00),
        buf.len() >= 18 ==> !(buf[12] == 0x81 && buf[13] == 0x00 && buf[16] == 0x08 && buf[17]
            == 0x00),
    ensures
        verdict(run_program(filter_program(port), buf)) == 0,
{
    law_filter_accepts_exactly_udp_to_port(port, buf);
    frame::law_udp_to_port_by_its_bytes(buf, port);
}

/// The kernel makes of a returned value that value, and of anything else zero.
pub proof fn law_verdict_is_the_returned_value(value: u32)
    ensures
        verdict(Outcome::Returned(value)) == value,
        verdict(Outcome::OutOfBounds) == 0,
        verdict(Outcome::Stuck) == 0,
{
}

/// A program that loads two bytes and compares them tells whether they are, in network order,
/// the given value; on a packet that does not hold them it ends out of bounds.
pub proof fn law_half_words_are_compared(packet: Seq<u8>, at: u32, value: u32, yes: u32, no: u32)
    ensures
        run_program(
            seq![inst(0x28, 0, 0, at), inst(0x15, 0, 1, value), inst(0x06, 0, 0, yes), inst(0x06, 0, 0, no)],
            packet,
        ) == (if at + 2 > packet.len() {
            Outcome::OutOfBounds
        } else if packet[at as int] * 256 + packet[at + 1] == value {
            Outcome::Returned(yes)
        } else {
            Outcome::Returned(no)
        }),
{
    let program = seq![
        inst(0x28, 0, 0, at),
        inst(0x15, 0, 1, value),
        inst(0x06, 0, 0, yes),
        inst(0x06, 0, 0, no),
    ];
    reveal_with_fuel(run_from, 4);
    assert(program[0] == inst(0x28, 0, 0, at) && program[1] == inst(0x15, 0, 1, value));
    assert(program[2] == inst(0x06, 0, 0, yes) && program[3] == inst(0x06, 0, 0, no));
}

/// A program that loads a byte and compares it tells whether it is the given value.
pub proof fn law_bytes_are_compared(packet: Seq<u8>, at: u32, value: u32, yes: u32, no: u32)
    ensures
        run_program(
            seq![inst(0x30, 0, 0, at), inst(0x15, 0, 1, value), inst(0x06, 0, 0, yes), inst(0x06, 0, 0, no)],
            packet,
        ) == (if at >= packet.len() {
            Outcome::OutOfBounds
        } else if packet[at as int] as u32 == value {
            Outcome::Returned(yes)
        } else {
            Outcome::Returned(no)
        }),
{
    let program = seq![
        inst(0x30, 0, 0, at),
        inst(0x15, 0, 1, value),
        inst(0x06, 0, 0, yes),
        inst(0x06, 0, 0, no),
    ];
    reveal_with_fuel(run_from, 4);
    assert(program[0] == inst(0x30, 0, 0, at) && program[1] == inst(0x15, 0, 1, value));
    assert(program[2] == inst(0x06, 0, 0, yes) && program[3] == inst(0x06, 0, 0, no));
}

/// A program that takes the length of an IPv4 header and loads two bytes relative to its end
/// compares those two bytes.
pub proof fn law_bytes_behind_a_header_are_compared(
    packet: Seq<u8>,
    header: u32,
    at: u32,
    value: u32,
    yes: u32,
    no: u32,
)
    ensures
        run_program(
            seq![
                inst(0xb1, 0, 0, header),
                inst(0x48, 0, 0, at),
                inst(0x15, 0, 1, value),
                inst(0x06, 0, 0, yes),
                inst(0x06, 0, 0, no),
            ],
            packet,
        ) == (if header >= packet.len() || (packet[header as int] % 16) * 4 + at + 2
            > packet.len() {
            Outcome::OutOfBounds
        } else if packet[(packet[header as int] % 16) * 4 + at] * 256 + packet[(
        packet[header as int] % 16) * 4 + at + 1] == value {
            Outcome::Returned(yes)
        } else {
            Outcome::Returned(no)
        }),
{
    let program = seq![
        inst(0xb1, 0, 0, header),
        inst(0x48, 0, 0, at),
        inst(0x15, 0, 1, value),
        inst(0x06, 0, 0, yes),
        inst(0x06, 0, 0, no),
    ];
    reveal_with_fuel(run_from, 5);
    assert(program[0] == inst(0xb1, 0, 0, header) && program[1] == inst(0x48, 0, 0, at));
    assert(program[2] == inst(0x15, 0, 1, value) && program[3] == inst(0x06, 0, 0, yes));
    assert(program[4] == inst(0x06, 0, 0, no));
}

/// A jump goes on as many instructions behind the next as its field says: that for equality
/// where the accumulator is the constant, that for set bits where the two share one. The
/// accumulator and the index stay.
pub proof fn law_jumps_go_where_they_say(
    program: Seq<SockFilter>,
    packet: Seq<u8>,
    pc: int,
    a: u32,
    x: u32,
)
    requires
        0 <= pc < program.len(),
    ensures
        program[pc].code == 0x15 && a == program[pc].k || program[pc].code == 0x45 && a
            & program[pc].k != 0 ==> run_from(program, packet, pc, a, x) == run_from(
            program,
            packet,
            pc + program[pc].jt + 1,
            a,
            x,
        ),
        program[pc].code == 0x15 && a != program[pc].k || program[pc].code == 0x45 && a
            & program[pc].k == 0 ==> run_from(program, packet, pc, a, x) == run_from(
            program,
            packet,
            pc + program[pc].jf + 1,
            a,
            x,
        ),
{
}

/// Instructions do not depend on where they stand: behind others, a program runs as it does
/// alone.
pub proof fn law_programs_can_be_moved(
    front: Seq<SockFilter>,
    program: Seq<SockFilter>,
    packet: Seq<u8>,
    pc: int,
    a: u32,
    x: u32,
)
    requires
        0 <= pc,
    ensures
        run_from(front + program, packet, front.len() + pc, a, x) == run_from(
            program,
            packet,
            pc,
            a,
            x,
        ),
    decreases (if pc < program.len() { program.len() - pc } else { 0 }),
{
    if pc < program.len() {
        let step = program[pc];
        let all = front + program;
        let k = step.k as int;
        assert(all[front.len() + pc] == step);
        if step.code == 0x28 && k + 2 <= packet.len() {
            let loaded = frame::be16(packet, k) as u32;
            law_programs_can_be_moved(front, program, packet, pc + 1, loaded, x);
        } else if step.code == 0x30 && k < packet.len() {
            law_programs_can_be_moved(front, program, packet, pc + 1, packet[k] as u32, x);
        } else if step.code == 0x15 {
            let jump = if a == step.k { step.jt } else { step.jf };
            law_programs_can_be_moved(front, program, packet, pc + 1 + jump, a, x);
        } else if step.code == 0x45 {
            let jump = if a & step.k != 0 { step.jt } else { step.jf };
            law_programs_can_be_moved(front, program, packet, pc + 1 + jump, a, x);
        } else if step.code == 0xb1 && k < packet.len() {
            let index = frame::ip_header_len(packet, k) as u32;
            law_programs_can_be_moved(front, program, packet, pc + 1, a, index);
        } else if step.code == 0x48 && x + k + 2 <= packet.len() {
            let loaded = frame::be16(packet, x + k) as u32;
            law_programs_can_be_moved(front, program, packet, pc + 1, loaded, x);
        }
    }
}

/// What each instruction does and what it leaves alone. Loads put what they read, in network
/// order, into the accumulator and keep the index; the header length goes into the index and
/// the accumulator stays; a return gives its constant whatever the registers hold. A load
/// past the packet's end is out of bounds; a place outside the program, or another
/// instruction, is stuck.
pub proof fn law_instructions_do_what_they_say(
    program: Seq<SockFilter>,
    packet: Seq<u8>,
    pc: int,
    a: u32,
    x: u32,
)
    ensures
        0 <= pc < program.len() ==> {
            let step = program[pc];
            let at = step.k as int;
            let outcome = run_from(program, packet, pc, a, x);
            &&& step.code == 0x28 && at + 1 < packet.len() ==> outcome == run_from(
                program,
                packet,
                pc + 1,
                (packet[at] * 256 + packet[at + 1]) as u32,
                x,
            )
            &&& step.code == 0x28 && at + 1 >= packet.len() ==> outcome is OutOfBounds
            &&& step.code == 0x30 && at < packet.len() ==> outcome == run_from(
                program,
                packet,
                pc + 1,
                packet[at] as u32,
                x,
            )
            &&& step.code == 0x30 && at >= packet.len() ==> outcome is OutOfBounds
            &&& step.code == 0x48 && x + at + 1 < packet.len() ==> outcome == run_from(
                program,
                packet,
                pc + 1,
                (packet[x + at] * 256 + packet[x + at + 1]) as u32,
                x,
            )
            &&& step.code == 0x48 && x + at + 1 >= packet.len() ==> outcome is OutOfBounds
            &&& step.code == 0xb1 && at < packet.len() ==> outcome == run_from(
                program,
                packet,
                pc + 1,
                a,
                ((packet[at] % 16) * 4) as u32,
            )
            &&& step.code == 0xb1 && at >= packet.len() ==> outcome is OutOfBounds
            &&& step.code == 0x06 ==> outcome == Outcome::Returned(step.k)
            &&& step.code != 0x28 && step.code != 0x30 && step.code != 0x48 && step.code != 0xb1
                && step.code != 0x15 && step.code != 0x45 && step.code != 0x06 ==> outcome is Stuck
        },
        pc < 0 || pc >= program.len() ==> run_from(program, packet, pc, a, x) is Stuck,
        run_program(program, packet) == run_from(program, packet, 0, 0, 0),
{
}

} // verus!
