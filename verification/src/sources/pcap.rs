//! Packet capture: taking UDP payloads out of raw Ethernet frames and routing the
//! shreds in them to sources.
use std::collections::HashSet;
use vstd::prelude::*;

use crate::clock::Instant;
use crate::frame;
use crate::registry::{ShredEvent, SourceId};
use crate::shred;
use crate::shred::ShredKey;
use crate::sources::bpf_filter;
use crate::sources::bpf_filter::SockFilter;

verus! {

/// An IPv4 address as a number, the first octet in the highest byte.
#[derive(Clone, Copy, Debug, PartialEq, Eq, Structural)]
pub struct Ipv4Addr(pub u32);

/// The number of the address `a.b.c.d`.
pub open spec fn address_number(a: u8, b: u8, c: u8, d: u8) -> int {
    a as int * 0x100_0000 + b as int * 0x1_0000 + c as int * 0x100 + d as int
}

impl Ipv4Addr {
    /// The address `a.b.c.d`.
    pub fn new(a: u8, b: u8, c: u8, d: u8) -> (address: Ipv4Addr)
        ensures
            address.0 == address_number(a, b, c, d),
    {
        Ipv4Addr(a as u32 * 0x100_0000 + b as u32 * 0x1_0000 + c as u32 * 0x100 + d as u32)
    }
}

/// One routing entry per capture source sharing a socket. Addresses are held by
/// their numbers (see [`Ipv4Addr`]).
pub struct PcapRoute {
    pub source_id: SourceId,
    pub include_ips: HashSet<u32>,
    pub exclude_ips: HashSet<u32>,
}

impl PcapRoute {
    /// The route restricts source addresses at all.
    pub open spec fn has_filter(self) -> bool {
        !(self.include_ips@ =~= Set::empty() && self.exclude_ips@ =~= Set::empty())
    }

    /// A packet from `src_ip` is for this route: without a filter every packet is;
    /// with one the address must be known, be included where there is an include
    /// list, and not be excluded.
    pub open spec fn admits(self, src_ip: Option<Ipv4Addr>) -> bool {
        !self.has_filter() || (src_ip matches Some(ip) && {
            &&& self.include_ips@ =~= Set::empty() || self.include_ips@.contains(ip.0)
            &&& !self.exclude_ips@.contains(ip.0)
        })
    }
}

/// The source address of an IPv4 frame, plain or VLAN-tagged.
pub open spec fn source_address(buf: Seq<u8>) -> Option<Ipv4Addr> {
    match frame::ip_start(buf) {
        Some(ip) if buf.len() >= ip + 16 => Some(
            Ipv4Addr(
                address_number(buf[ip + 12], buf[ip + 13], buf[ip + 14], buf[ip + 15]) as u32,
            ),
        ),
        _ => None,
    }
}

/// Length of the payload that the UDP header behind the IPv4 header at `ip` claims.
pub open spec fn udp_payload_len(buf: Seq<u8>, ip: int) -> int {
    let claimed = frame::be16(buf, frame::udp_start(buf, ip) + 4);
    if claimed >= 8 {
        claimed - 8
    } else {
        0
    }
}

/// The frame holds an unfragmented UDP datagram behind the IPv4 header at `ip`,
/// whose headers and claimed payload lie within the frame.
pub open spec fn holds_udp_datagram(buf: Seq<u8>, ip: int) -> bool {
    &&& buf.len() >= ip + 20
    &&& frame::ip_header_len(buf, ip) >= 20
    &&& buf.len() >= frame::udp_start(buf, ip) + 8
    &&& frame::ip_protocol(buf, ip) == frame::PROTO_UDP
    &&& frame::fragment_offset(buf, ip) == 0
    &&& frame::udp_start(buf, ip) + 8 + udp_payload_len(buf, ip) <= buf.len()
}

/// The UDP payload of a frame.
pub open spec fn udp_payload(buf: Seq<u8>) -> Option<Seq<u8>> {
    match frame::ip_start(buf) {
        Some(ip) if holds_udp_datagram(buf, ip) => {
            let start = frame::udp_start(buf, ip) + 8;
            Some(buf.subrange(start, start + udp_payload_len(buf, ip)))
        },
        _ => None,
    }
}

/// Returns the offset of the IP header within an Ethernet frame, handling a single
/// 802.1Q VLAN tag if present. Returns `None` if the frame is too short or the
/// ethertype is not IPv4 (after unwrapping VLAN).
pub fn ip_header_offset(buf: &[u8]) -> (offset: Option<usize>)
    ensures
        match offset {
            Some(at) => frame::ip_start(buf@) == Some(at as int),
            None => frame::ip_start(buf@) is None,
        },
{
    if buf.len() < 14 {
        return None;
    }
    let ethertype: u16 = frame::read_be16(buf, 12);
    if ethertype == frame::ETHERTYPE_IPV4 {
        Some(14)
    } else if ethertype == frame::ETHERTYPE_VLAN {
        if buf.len() < 18 {
            return None;
        }
        let inner: u16 = frame::read_be16(buf, 16);
        if inner == frame::ETHERTYPE_IPV4 {
            Some(18)
        } else {
            None
        }
    } else {
        None
    }
}

/// Extracts the source IPv4 address from a raw Ethernet frame (IPv4 or VLAN+IPv4).
pub fn extract_src_ip(buf: &[u8]) -> (address: Option<Ipv4Addr>)
    ensures
        address == source_address(buf@),
{
    let ip_start: usize = match ip_header_offset(buf) {
        Some(at) => at,
        None => {
            return None;
        },
    };
    let src_off: usize = ip_start + 12;
    if buf.len() < src_off + 4 {
        return None;
    }
    Some(Ipv4Addr::new(buf[src_off], buf[src_off + 1], buf[src_off + 2], buf[src_off + 3]))
}

/// Extracts the UDP payload from a raw Ethernet frame. Returns `None` if it is not
/// IPv4/UDP, is fragmented or is cut short. Handles a single 802.1Q VLAN tag.
pub fn extract_udp_payload(buf: &[u8]) -> (payload: Option<&[u8]>)
    ensures
        match payload {
            Some(bytes) => udp_payload(buf@) == Some(bytes@),
            None => udp_payload(buf@) is None,
        },
{
    let ip_start: usize = match ip_header_offset(buf) {
        Some(at) => at,
        None => {
            return None;
        },
    };
    if buf.len() < ip_start + 20 {
        return None;
    }
    let first: u8 = buf[ip_start];
    assert(first & 0x0f == first % 16) by (bit_vector);
    let ihl: usize = ((first & 0x0f) * 4) as usize;
    if ihl < 20 || buf.len() < ip_start + ihl + 8 {
        return None;
    }
    if buf[ip_start + 9] != frame::PROTO_UDP {
        return None;
    }
    let flags: u16 = frame::read_be16(buf, ip_start + 6);
    assert(flags & 0x1fff == flags % 8192) by (bit_vector);
    if flags & 0x1fff != 0 {
        return None;
    }
    let udp_start: usize = ip_start + ihl;
    let payload_start: usize = udp_start + 8;
    let udp_len: usize = frame::read_be16(buf, udp_start + 4) as usize;
    let payload_len: usize = udp_len.saturating_sub(8);
    if payload_len > buf.len() - payload_start {
        return None;
    }
    Some(&buf[payload_start..payload_start + payload_len])
}

/// Checks whether this packet's source IP matches a route's filter.
pub fn route_matches(route: &PcapRoute, src_ip: Option<Ipv4Addr>) -> (matches: bool)
    ensures
        matches == route.admits(src_ip),
{
    let no_includes = route.include_ips.is_empty();
    let no_excludes = route.exclude_ips.is_empty();
    if no_includes && no_excludes {
        return true;
    }
    let ip: Ipv4Addr = match src_ip {
        Some(ip) => ip,
        None => {
            return false;
        },
    };
    if !no_includes && !route.include_ips.contains(&ip.0) {
        return false;
    }
    if !no_excludes && route.exclude_ips.contains(&ip.0) {
        return false;
    }
    true
}

/// Some route restricts source addresses.
pub open spec fn any_filter(routes: Seq<PcapRoute>) -> bool {
    exists|i: int| 0 <= i < routes.len() && (#[trigger] routes[i]).has_filter()
}

/// The events for a shred from `src_ip`: one for every route that admits it, in the
/// order of the routes, all with the same moment.
pub open spec fn shred_events(
    routes: Seq<PcapRoute>,
    src_ip: Option<Ipv4Addr>,
    key: ShredKey,
    received_at: Instant,
) -> Seq<ShredEvent>
    decreases routes.len(),
{
    if routes.len() == 0 {
        Seq::empty()
    } else {
        let earlier = shred_events(routes.drop_last(), src_ip, key, received_at);
        if routes.last().admits(src_ip) {
            earlier.push(ShredEvent { source: routes.last().source_id, key, received_at })
        } else {
            earlier
        }
    }
}

/// Per-route counters after a shred from `src_ip`: those of the routes that admit
/// it go up by one.
pub open spec fn counts_after(
    routes: Seq<PcapRoute>,
    counts: Seq<u64>,
    src_ip: Option<Ipv4Addr>,
) -> Seq<u64> {
    Seq::new(
        counts.len(),
        |i: int|
            if routes[i].admits(src_ip) {
                (counts[i] + 1) as u64
            } else {
                counts[i]
            },
    )
}

/// Whether a route of `routes` restricts source addresses.
fn any_route_filters(routes: &Vec<PcapRoute>) -> (any: bool)
    ensures
        any == any_filter(routes@),
{
    let mut i: usize = 0;
    while i < routes.len()
        invariant
            i <= routes@.len(),
            forall|j: int| 0 <= j < i ==> !(#[trigger] routes@[j]).has_filter(),
        decreases routes@.len() - i,
    {
        if !routes[i].include_ips.is_empty() || !routes[i].exclude_ips.is_empty() {
            assert(routes@[i as int].has_filter());
            return true;
        }
        i = i + 1;
    }
    false
}

/// State of a capture between frames: its routes, and what it has counted.
pub struct Capture {
    pub routes: Vec<PcapRoute>,
    /// Whether the source address of a frame matters to any route.
    pub has_any_filter: bool,
    /// Frames received.
    pub raw_count: u64,
    /// Frames that held a shred.
    pub parsed_count: u64,
    /// Per route, the shreds that it admitted.
    pub route_counts: Vec<u64>,
}

impl Capture {
    /// The state is consistent: no more shreds were parsed than frames received,
    /// and no route admitted more shreds than were parsed.
    pub open spec fn wf(self) -> bool {
        &&& self.has_any_filter == any_filter(self.routes@)
        &&& self.route_counts@.len() == self.routes@.len()
        &&& self.parsed_count <= self.raw_count
        &&& forall|i: int|
            0 <= i < self.route_counts@.len() ==> #[trigger] self.route_counts@[i]
                <= self.parsed_count
    }

    /// Nothing but the frame counter of `self` differs from `before`.
    pub open spec fn only_saw_a_frame(self, before: Capture) -> bool {
        &&& self.routes == before.routes
        &&& self.raw_count == before.raw_count + 1
        &&& self.parsed_count == before.parsed_count
        &&& self.route_counts == before.route_counts
    }

    /// `self` is `before` after a frame with a shred from `src_ip`.
    pub open spec fn saw_a_shred(self, before: Capture, src_ip: Option<Ipv4Addr>) -> bool {
        &&& self.routes == before.routes
        &&& self.raw_count == before.raw_count + 1
        &&& self.parsed_count == before.parsed_count + 1
        &&& self.route_counts@ == counts_after(before.routes@, before.route_counts@, src_ip)
    }

    /// A capture for `routes` that has seen nothing yet.
    pub fn new(routes: Vec<PcapRoute>) -> (capture: Capture)
        ensures
            capture.wf(),
            capture.routes == routes,
            capture.raw_count == 0,
            capture.parsed_count == 0,
            forall|i: int| 0 <= i < routes@.len() ==> #[trigger] capture.route_counts@[i] == 0,
    {
        let has_any_filter = any_route_filters(&routes);
        let mut route_counts: Vec<u64> = Vec::new();
        let mut i: usize = 0;
        while i < routes.len()
            invariant
                i <= routes@.len(),
                route_counts@.len() == i,
                forall|j: int| 0 <= j < i ==> #[trigger] route_counts@[j] == 0,
            decreases routes@.len() - i,
        {
            route_counts.push(0);
            i = i + 1;
        }
        Capture { routes, has_any_filter, raw_count: 0, parsed_count: 0, route_counts }
    }

    /// Counts a frame that holds no shred.
    pub fn on_other_frame(&mut self)
        requires
            old(self).wf(),
            old(self).raw_count < u64::MAX,
        ensures
            final(self).wf(),
            final(self).only_saw_a_frame(*old(self)),
    {
        self.raw_count = self.raw_count + 1;
    }

    /// Counts a frame that holds the shred `key`, and returns the events for the
    /// routes that admit its source address.
    pub fn on_shred_frame(&mut self, frame: &[u8], key: ShredKey, received_at: Instant) -> (events:
        Vec<ShredEvent>)
        requires
            old(self).wf(),
            old(self).raw_count < u64::MAX,
        ensures
            final(self).wf(),
            final(self).saw_a_shred(*old(self), source_address(frame@)),
            events@ == shred_events(
                old(self).routes@,
                source_address(frame@),
                key,
                received_at,
            ),
    {
        let ghost routes = self.routes@;
        let ghost before = self.route_counts@;
        let ghost address = source_address(frame@);
        let src_ip: Option<Ipv4Addr> = if self.has_any_filter {
            extract_src_ip(frame)
        } else {
            None
        };
        assert forall|i: int| 0 <= i < routes.len() implies (#[trigger] routes[i]).admits(src_ip)
            == routes[i].admits(address) by {}
        self.raw_count = self.raw_count + 1;
        self.parsed_count = self.parsed_count + 1;
        let mut events: Vec<ShredEvent> = Vec::new();
        let mut i: usize = 0;
        while i < self.routes.len()
            invariant
                i <= routes.len(),
                self.routes@ == routes,
                self.routes == old(self).routes,
                self.has_any_filter == old(self).has_any_filter,
                old(self).wf(),
                old(self).raw_count < u64::MAX,
                self.raw_count == old(self).raw_count + 1,
                self.parsed_count == old(self).parsed_count + 1,
                before == old(self).route_counts@,
                routes == old(self).routes@,
                self.route_counts@.len() == before.len(),
                forall|j: int|
                    0 <= j < routes.len() ==> (#[trigger] routes[j]).admits(src_ip)
                        == routes[j].admits(address),
                forall|j: int|
                    0 <= j < i ==> #[trigger] self.route_counts@[j] == counts_after(
                        routes,
                        before,
                        address,
                    )[j],
                forall|j: int|
                    i <= j < before.len() ==> #[trigger] self.route_counts@[j] == before[j],
                events@ == shred_events(routes.take(i as int), address, key, received_at),
            decreases routes.len() - i,
        {
            proof {
                assert(routes.take(i + 1).drop_last() =~= routes.take(i as int));
                assert(routes.take(i + 1).last() == routes[i as int]);
                assert(before[i as int] <= old(self).parsed_count);
            }
            if route_matches(&self.routes[i], src_ip) {
                let count: u64 = self.route_counts[i];
                self.route_counts.set(i, count + 1);
                events.push(ShredEvent { source: self.routes[i].source_id, key, received_at });
            }
            i = i + 1;
        }
        proof {
            assert(routes.take(routes.len() as int) =~= routes);
            assert(self.route_counts@ =~= counts_after(routes, before, address));
        }
        events
    }

    /// Takes in one captured frame: counts it, extracts its UDP payload, has `parse`
    /// look for a shred in the payload, and returns the events to send.
    pub fn on_frame<P: Fn(&[u8]) -> Option<ShredKey>>(
        &mut self,
        frame: &[u8],
        received_at: Instant,
        parse: P,
    ) -> (events: Vec<ShredEvent>)
        requires
            old(self).wf(),
            old(self).raw_count < u64::MAX,
            forall|payload: &[u8]| #[trigger] call_requires(parse, (payload,)),
        ensures
            final(self).wf(),
            match udp_payload(frame@) {
                None => events@.len() == 0 && final(self).only_saw_a_frame(*old(self)),
                Some(payload) => exists|found: Option<ShredKey>|
                    {
                        &&& #[trigger] shred::finds(parse, payload, found)
                        &&& match found {
                            None => events@.len() == 0 && final(self).only_saw_a_frame(*old(self)),
                            Some(key) => {
                                &&& final(self).saw_a_shred(*old(self), source_address(frame@))
                                &&& events@ == shred_events(
                                    old(self).routes@,
                                    source_address(frame@),
                                    key,
                                    received_at,
                                )
                            },
                        }
                    },
            },
    {
        match extract_udp_payload(frame) {
            None => {
                self.on_other_frame();
                Vec::new()
            },
            Some(payload) => {
                let found: Option<ShredKey> = parse(payload);
                assert(shred::finds(parse, udp_payload(frame@)->0, found));
                match found {
                    None => {
                        self.on_other_frame();
                        Vec::new()
                    },
                    Some(key) => self.on_shred_frame(frame, key, received_at),
                }
            },
        }
    }
}

/// How the capture socket is to be set up before the first frame is read.
pub struct CaptureSetup {
    /// Filter program to attach.
    pub filter: [SockFilter; 21],
    /// Whether to bind to one interface; without, frames of all interfaces come in.
    pub bind_interface: bool,
    /// Size of the receive buffer to ask for, if any.
    pub recv_buf: Option<i32>,
    /// Receive timeout in microseconds, so that cancellation is seen regularly.
    pub timeout_micros: u32,
}

/// Works out the setup for capturing `port` on `interface` (empty for all of them)
/// with a receive buffer of `recv_buf_size` bytes (zero for the system's default).
/// The size is handed on as a C `int`.
pub fn capture_setup(port: u16, interface: &str, recv_buf_size: usize) -> (setup: CaptureSetup)
    ensures
        setup.filter@ == bpf_filter::filter_program(port),
        setup.bind_interface == (interface@.len() > 0),
        setup.recv_buf == (if recv_buf_size > 0 {
            Some(recv_buf_size as i32)
        } else {
            None
        }),
        setup.timeout_micros == 100_000,
{
    CaptureSetup {
        filter: bpf_filter::build_bpf_filter(port),
        bind_interface: !interface.is_empty(),
        recv_buf: if recv_buf_size > 0 {
            Some(#[verifier::truncate] (recv_buf_size as i32))
        } else {
            None
        },
        timeout_micros: 100_000,
    }
}

/// The operating system's error number for a missing permission.
pub const EPERM: i32 = 1;

/// Why a capture could not be set up.
#[derive(Clone, Copy, Debug, PartialEq, Eq, Structural)]
pub enum SetupFailure {
    /// The process lacks the capability for raw packet sockets.
    PermissionDenied,
    /// There is no interface of the configured name.
    InterfaceNotFound,
    /// Any other error of the operating system.
    Os,
}

/// One step on the way to a capture. A step that fails after the socket was opened
/// closes it.
#[derive(Clone, Copy, Debug, PartialEq, Eq, Structural)]
pub enum SetupStep {
    /// Open the socket.
    Open,
    /// Attach the filter.
    AttachFilter,
    /// Look the interface up by its name.
    FindInterface,
    /// Bind the socket to the interface.
    Bind,
    /// Ask for a receive buffer of this size.
    SetRecvBuf(i32),
    /// Set the receive timeout.
    SetTimeout,
    /// Ask for kernel timestamps.
    EnableTimestamps,
    /// Capture, with kernel timestamps or without.
    Capture { kernel_timestamps: bool },
    /// Give up.
    Fail(SetupFailure),
}

/// Outcome of a step: it succeeded, or failed with the operating system's error
/// number where there is one.
#[derive(Clone, Copy, Debug, PartialEq, Eq, Structural)]
pub enum StepOutcome {
    Done,
    Failed { raw_os_error: Option<i32> },
}

/// The step that follows the choice of an interface.
pub open spec fn after_interface(setup: CaptureSetup) -> SetupStep {
    match setup.recv_buf {
        Some(size) => SetupStep::SetRecvBuf(size),
        None => SetupStep::SetTimeout,
    }
}

/// The step that follows `step`: socket, filter, interface, receive buffer, timeout
/// and timestamps in this order. There is no capture without the socket, the filter
/// and the interface, where one is named. A receive buffer or a timeout that is refused
/// is done without, and without kernel timestamps the capture takes its own.
pub open spec fn step_after(setup: CaptureSetup, step: SetupStep, outcome: StepOutcome) -> SetupStep {
    let done = outcome is Done;
    match step {
        SetupStep::Open => if done {
            SetupStep::AttachFilter
        } else if outcome == (StepOutcome::Failed { raw_os_error: Some(EPERM) }) {
            SetupStep::Fail(SetupFailure::PermissionDenied)
        } else {
            SetupStep::Fail(SetupFailure::Os)
        },
        SetupStep::AttachFilter => if !done {
            SetupStep::Fail(SetupFailure::Os)
        } else if setup.bind_interface {
            SetupStep::FindInterface
        } else {
            after_interface(setup)
        },
        SetupStep::FindInterface => if done {
            SetupStep::Bind
        } else {
            SetupStep::Fail(SetupFailure::InterfaceNotFound)
        },
        SetupStep::Bind => if done {
            after_interface(setup)
        } else {
            SetupStep::Fail(SetupFailure::Os)
        },
        SetupStep::SetRecvBuf(_) => SetupStep::SetTimeout,
        SetupStep::SetTimeout => SetupStep::EnableTimestamps,
        SetupStep::EnableTimestamps => SetupStep::Capture { kernel_timestamps: done },
        SetupStep::Capture { .. } => step,
        SetupStep::Fail(_) => step,
    }
}

impl CaptureSetup {
    /// The step that follows the choice of an interface.
    fn next_after_interface(&self) -> (next: SetupStep)
        ensures
            next == after_interface(*self),
    {
        match self.recv_buf {
            Some(size) => SetupStep::SetRecvBuf(size),
            None => SetupStep::SetTimeout,
        }
    }

    /// Decides the step that follows `step`, given how that went.
    pub fn next_step(&self, step: SetupStep, outcome: StepOutcome) -> (next: SetupStep)
        ensures
            next == step_after(*self, step, outcome),
    {
        let done = match outcome {
            StepOutcome::Done => true,
            StepOutcome::Failed { .. } => false,
        };
        match step {
            SetupStep::Open => match outcome {
                StepOutcome::Done => SetupStep::AttachFilter,
                StepOutcome::Failed { raw_os_error: Some(code) } => if code == EPERM {
                    SetupStep::Fail(SetupFailure::PermissionDenied)
                } else {
                    SetupStep::Fail(SetupFailure::Os)
                },
                StepOutcome::Failed { raw_os_error: None } => SetupStep::Fail(SetupFailure::Os),
            },
            SetupStep::AttachFilter => if !done {
                SetupStep::Fail(SetupFailure::Os)
            } else if self.bind_interface {
                SetupStep::FindInterface
            } else {
                self.next_after_interface()
            },
            SetupStep::FindInterface => if done {
                SetupStep::Bind
            } else {
                SetupStep::Fail(SetupFailure::InterfaceNotFound)
            },
            SetupStep::Bind => if done {
                self.next_after_interface()
            } else {
                SetupStep::Fail(SetupFailure::Os)
            },
            SetupStep::SetRecvBuf(_) => SetupStep::SetTimeout,
            SetupStep::SetTimeout => SetupStep::EnableTimestamps,
            SetupStep::EnableTimestamps => SetupStep::Capture { kernel_timestamps: done },
            SetupStep::Capture { kernel_timestamps } => SetupStep::Capture { kernel_timestamps },
            SetupStep::Fail(failure) => SetupStep::Fail(failure),
        }
    }
}

/// How far `step` is from the end of the setup.
pub open spec fn steps_left(step: SetupStep) -> nat {
    match step {
        SetupStep::Open => 7,
        SetupStep::AttachFilter => 6,
        SetupStep::FindInterface => 5,
        SetupStep::Bind => 4,
        SetupStep::SetRecvBuf(_) => 3,
        SetupStep::SetTimeout => 2,
        SetupStep::EnableTimestamps => 1,
        SetupStep::Capture { .. } => 0,
        SetupStep::Fail(_) => 0,
    }
}

/// Every step but the last leads closer to the end of the setup, however it goes; and
/// the setup only fails at a step that failed.
pub proof fn law_setup_comes_to_an_end(setup: CaptureSetup, step: SetupStep, outcome: StepOutcome)
    ensures
        steps_left(step) > 0 ==> steps_left(step_after(setup, step, outcome)) < steps_left(step),
        steps_left(step) > 0 && outcome is Done ==> step_after(setup, step, outcome) !is Fail,
{
}

/// Putting an 802.1Q tag into a plain IPv4 frame changes neither its source address
/// nor its UDP payload, nor whether the socket filter for a port lets it through.
pub proof fn law_vlan_tag_is_transparent(buf: Seq<u8>, tci_high: u8, tci_low: u8, port: u16)
    requires
        frame::ip_start(buf) == Some(14int),
    ensures
        ({
            let tagged = frame::with_vlan_tag(buf, tci_high, tci_low);
            &&& frame::ip_start(tagged) == Some(18int)
            &&& source_address(tagged) == source_address(buf)
            &&& udp_payload(tagged) == udp_payload(buf)
            &&& frame::is_udp_to_port(tagged, port) == frame::is_udp_to_port(buf, port)
        }),
{
    let tagged = frame::with_vlan_tag(buf, tci_high, tci_low);
    assert(tagged.len() == buf.len() + 4);
    assert forall|i: int| 12 <= i < buf.len() implies #[trigger] buf[i] == tagged[i + 4] by {}
    assert(tagged[12] == 0x81 && tagged[13] == 0x00);
    assert(tagged[16] == buf[12] && tagged[17] == buf[13]);
    assert(forall|i: int|
        12 <= i < buf.len() - 1 ==> #[trigger] frame::be16(buf, i) == frame::be16(tagged, i + 4));
    if buf.len() >= 16 + 14 {
        assert(source_address(tagged) == source_address(buf));
    }
    if buf.len() > 14 {
        assert(frame::ip_header_len(buf, 14) == frame::ip_header_len(tagged, 18));
    }
    if let Some(payload) = udp_payload(buf) {
        assert(udp_payload(tagged)->0 =~= payload);
    }
}

/// A frame from which a payload is taken passes the socket filter for the port that
/// it is addressed to.
pub proof fn law_captured_payload_passes_the_filter(buf: Seq<u8>, port: u16)
    requires
        udp_payload(buf) is Some,
        frame::udp_destination(buf, frame::ip_start(buf)->0) == port,
    ensures
        bpf_filter::verdict(
            bpf_filter::run_program(bpf_filter::filter_program(port), buf),
        ) == bpf_filter::ACCEPT,
{
    bpf_filter::law_filter_accepts_exactly_udp_to_port(port, buf);
}

/// A route without a filter admits every packet, also one whose source address is
/// not known.
pub proof fn law_route_without_filter_admits_all(route: PcapRoute, src_ip: Option<Ipv4Addr>)
    requires
        route.include_ips@ == Set::<u32>::empty(),
        route.exclude_ips@ == Set::<u32>::empty(),
    ensures
        route.admits(src_ip),
{
}

/// A route with a filter never admits a packet without a source address, nor one
/// from an excluded address, even where the address is included too.
pub proof fn law_exclusion_wins(route: PcapRoute, src_ip: Option<Ipv4Addr>)
    requires
        route.has_filter(),
        match src_ip {
            Some(ip) => route.exclude_ips@.contains(ip.0),
            None => true,
        },
    ensures
        !route.admits(src_ip),
{
}

/// The events for a shred are those of the routes that admit its source address and
/// no others: every event carries the shred's key, the frame's moment and the source
/// of such a route, and every such route has its event.
pub proof fn law_events_are_those_of_admitting_routes(
    routes: Seq<PcapRoute>,
    src_ip: Option<Ipv4Addr>,
    key: ShredKey,
    received_at: Instant,
)
    ensures
        shred_events(routes, src_ip, key, received_at).len() <= routes.len(),
        forall|e: int|
            0 <= e < shred_events(routes, src_ip, key, received_at).len() ==> {
                let event = #[trigger] shred_events(routes, src_ip, key, received_at)[e];
                &&& event.key == key
                &&& event.received_at == received_at
                &&& exists|i: int|
                    0 <= i < routes.len() && (#[trigger] routes[i]).admits(src_ip)
                        && routes[i].source_id == event.source
            },
        forall|i: int|
            0 <= i < routes.len() && (#[trigger] routes[i]).admits(src_ip) ==> shred_events(
                routes,
                src_ip,
                key,
                received_at,
            ).contains(ShredEvent { source: routes[i].source_id, key, received_at }),
    decreases routes.len(),
{
    if routes.len() > 0 {
        let before = routes.drop_last();
        law_events_are_those_of_admitting_routes(before, src_ip, key, received_at);
        let earlier = shred_events(before, src_ip, key, received_at);
        let all = shred_events(routes, src_ip, key, received_at);
        assert forall|e: int| 0 <= e < all.len() implies {
            let event = #[trigger] all[e];
            &&& event.key == key
            &&& event.received_at == received_at
            &&& exists|i: int|
                0 <= i < routes.len() && (#[trigger] routes[i]).admits(src_ip)
                    && routes[i].source_id == event.source
        } by {
            if e < earlier.len() {
                assert(all[e] == earlier[e]);
                let i = choose|i: int|
                    0 <= i < before.len() && (#[trigger] before[i]).admits(src_ip)
                        && before[i].source_id == earlier[e].source;
                assert(routes[i] == before[i]);
            } else {
                assert(routes[routes.len() - 1].admits(src_ip));
            }
        }
        assert forall|i: int|
            0 <= i < routes.len() && (#[trigger] routes[i]).admits(
                src_ip,
            ) implies all.contains(
            ShredEvent { source: routes[i].source_id, key, received_at },
        ) by {
            let event = ShredEvent { source: routes[i].source_id, key, received_at };
            if i < before.len() {
                assert(before[i] == routes[i]);
                assert(earlier.contains(event));
                let e = choose|e: int| 0 <= e < earlier.len() && earlier[e] == event;
                assert(all[e] == event);
            } else {
                assert(all[all.len() - 1] == event);
            }
        }
    }
}

/// The octets of an address can be read off its number, the first in the highest byte; so
/// different octets give different addresses.
pub proof fn law_address_keeps_its_octets(a: u8, b: u8, c: u8, d: u8)
    ensures
        0 <= address_number(a, b, c, d) <= u32::MAX,
        address_number(a, b, c, d) / 0x100_0000 == a,
        address_number(a, b, c, d) / 0x1_0000 % 256 == b,
        address_number(a, b, c, d) / 0x100 % 256 == c,
        address_number(a, b, c, d) % 256 == d,
{
}

/// A frame whose IPv4 header carries the octets a, b, c, d as source address, in its bytes 12
/// to 15, has the source address a.b.c.d, plain or behind a VLAN tag.
pub proof fn law_source_address_is_the_one_in_the_header(
    macs: Seq<u8>,
    tag: Seq<u8>,
    front: Seq<u8>,
    a: u8,
    b: u8,
    c: u8,
    d: u8,
    rest: Seq<u8>,
)
    requires
        macs.len() == 12,
        tag.len() == 0 || tag.len() == 4 && tag[0] == 0x81 && tag[1] == 0x00,
        front.len() == 12,
    ensures
        source_address(
            macs + tag + seq![0x08u8, 0x00u8] + front + seq![a, b, c, d] + rest,
        ) matches Some(address) && address.0 / 0x100_0000 == a && address.0 / 0x1_0000 % 256 == b
            && address.0 / 0x100 % 256 == c && address.0 % 256 == d,
{
    let buf = macs + tag + seq![0x08u8, 0x00u8] + front + seq![a, b, c, d] + rest;
    let ip = 14 + tag.len() as int;
    law_address_keeps_its_octets(a, b, c, d);
    assert(buf[ip + 12] == a && buf[ip + 13] == b && buf[ip + 14] == c && buf[ip + 15] == d);
    assert(buf[ip - 2] == 0x08 && buf[ip - 1] == 0x00);
    if tag.len() == 4 {
        assert(buf[12] == tag[0] && buf[13] == tag[1]);
    }
    frame::law_only_ipv4_frames_have_an_ip_header(buf);
}

/// Frames that differ in a byte of their source address have different source addresses.
pub proof fn law_different_source_bytes_are_different_addresses(
    left: Seq<u8>,
    right: Seq<u8>,
    ip: int,
    i: int,
)
    requires
        frame::ip_start(left) == Some(ip),
        frame::ip_start(right) == Some(ip),
        left.len() >= ip + 16,
        right.len() >= ip + 16,
        12 <= i < 16,
        left[ip + i] != right[ip + i],
    ensures
        source_address(left) is Some,
        source_address(right) is Some,
        source_address(left) != source_address(right),
{
    law_address_keeps_its_octets(left[ip + 12], left[ip + 13], left[ip + 14], left[ip + 15]);
    law_address_keeps_its_octets(right[ip + 12], right[ip + 13], right[ip + 14], right[ip + 15]);
}

/// A frame has a source address exactly where it has an IPv4 header and reaches to the end of
/// the header's source field.
pub proof fn law_source_address_needs_an_ip_header(buf: Seq<u8>)
    ensures
        source_address(buf) is Some <==> {
            ||| buf.len() >= 30 && buf[12] == 0x08 && buf[13] == 0x00
            ||| buf.len() >= 34 && buf[12] == 0x81 && buf[13] == 0x00 && buf[16] == 0x08 && buf[17]
                == 0x00
        },
{
}

/// What lies behind the UDP header of a frame is its payload up to the length that the
/// header's 16-bit length field claims, which counts the header's own eight bytes. A claim
/// of less is an empty payload, and a claim beyond the frame's end none.
pub proof fn law_payload_is_what_the_udp_length_claims(
    macs: Seq<u8>,
    tag: Seq<u8>,
    header: Seq<u8>,
    ports: Seq<u8>,
    high: u8,
    low: u8,
    checksum: Seq<u8>,
    behind: Seq<u8>,
)
    requires
        macs.len() == 12,
        tag.len() == 0 || tag.len() == 4 && tag[0] == 0x81 && tag[1] == 0x00,
        header.len() >= 20,
        header.len() == (header[0] % 16) * 4,
        header[6] % 32 == 0,
        header[7] == 0,
        header[9] == 17,
        ports.len() == 4,
        checksum.len() == 2,
    ensures
        udp_payload(
            macs + tag + seq![0x08u8, 0x00u8] + header + ports + seq![high, low] + checksum
                + behind,
        ) == (if high * 256 + low < 8 {
            Some(Seq::<u8>::empty())
        } else if high * 256 + low - 8 <= behind.len() {
            Some(behind.subrange(0, high * 256 + low - 8))
        } else {
            None
        }),
{
    let buf = macs + tag + seq![0x08u8, 0x00u8] + header + ports + seq![high, low] + checksum
        + behind;
    let ip = 14 + tag.len() as int;
    let udp = ip + header.len() as int;
    assert(buf[ip - 2] == 0x08 && buf[ip - 1] == 0x00);
    if tag.len() == 4 {
        assert(buf[12] == tag[0] && buf[13] == tag[1]);
    }
    frame::law_only_ipv4_frames_have_an_ip_header(buf);
    assert(frame::ip_start(buf) == Some(ip));
    assert(buf[ip] == header[0] && buf[ip + 6] == header[6] && buf[ip + 7] == header[7] && buf[ip
        + 9] == header[9]);
    frame::law_header_fields_by_their_bytes(buf, ip);
    assert(frame::udp_start(buf, ip) == udp);
    assert(buf[udp + 4] == high && buf[udp + 5] == low);
    frame::law_network_order(buf, udp + 4);
    let claimed = high * 256 + low;
    assert(udp_payload_len(buf, ip) == (if claimed < 8 {
        0
    } else {
        claimed - 8
    }));
    assert(buf.len() == udp + 8 + behind.len());
    if claimed < 8 {
        assert(udp_payload(buf)->0 =~= Seq::<u8>::empty());
    } else if claimed - 8 <= behind.len() {
        assert(udp_payload(buf)->0 =~= behind.subrange(0, claimed - 8));
    }
}

/// The payload put into a frame comes out of it: all of it and nothing else, whatever its
/// bytes, the other header fields, a VLAN tag, options in the IPv4 header and padding behind
/// the datagram.
pub proof fn law_payload_round_trip(
    macs: Seq<u8>,
    tag: Seq<u8>,
    header: Seq<u8>,
    ports: Seq<u8>,
    checksum: Seq<u8>,
    payload: Seq<u8>,
    padding: Seq<u8>,
)
    requires
        macs.len() == 12,
        tag.len() == 0 || tag.len() == 4 && tag[0] == 0x81 && tag[1] == 0x00,
        header.len() >= 20,
        header.len() == (header[0] % 16) * 4,
        header[6] % 32 == 0,
        header[7] == 0,
        header[9] == 17,
        ports.len() == 4,
        checksum.len() == 2,
        payload.len() <= 65527,
    ensures
        udp_payload(
            macs + tag + seq![0x08u8, 0x00u8] + header + ports + seq![
                ((payload.len() + 8) / 256) as u8,
                ((payload.len() + 8) % 256) as u8,
            ] + checksum + (payload + padding),
        ) == Some(payload),
{
    let high = ((payload.len() + 8) / 256) as u8;
    let low = ((payload.len() + 8) % 256) as u8;
    law_payload_is_what_the_udp_length_claims(
        macs,
        tag,
        header,
        ports,
        high,
        low,
        checksum,
        payload + padding,
    );
    assert(high * 256 + low == payload.len() + 8);
    assert((payload + padding).subrange(0, payload.len() as int) =~= payload);
}

/// A payload is only taken out of an IPv4 frame, plain or behind one VLAN tag, whose header
/// has at least 20 bytes, protocol 17 and no fragment offset. It is the run of bytes eight
/// behind the IPv4 header, of the length that the UDP header claims.
pub proof fn law_only_udp_datagrams_have_a_payload(buf: Seq<u8>)
    ensures
        udp_payload(buf) matches Some(payload) ==> exists|ip: int|
            {
                &&& ip == 14 && buf[12] == 0x08 && buf[13] == 0x00 || ip == 18 && buf[12] == 0x81
                    && buf[13] == 0x00 && buf[16] == 0x08 && buf[17] == 0x00
                &&& (#[trigger] buf[ip]) % 16 >= 5
                &&& buf[ip + 9] == 17
                &&& buf[ip + 6] % 32 == 0
                &&& buf[ip + 7] == 0
                &&& ip + (buf[ip] % 16) * 4 + 8 + payload.len() <= buf.len()
                &&& payload == buf.subrange(
                    ip + (buf[ip] % 16) * 4 + 8,
                    ip + (buf[ip] % 16) * 4 + 8 + payload.len(),
                )
                &&& payload.len() == 0 || payload.len() + 8 == buf[ip + (buf[ip] % 16) * 4 + 4]
                    * 256 + buf[ip + (buf[ip] % 16) * 4 + 5]
            },
{
    if let Some(payload) = udp_payload(buf) {
        let ip = frame::ip_start(buf)->0;
        frame::law_only_ipv4_frames_have_an_ip_header(buf);
        frame::law_header_fields_by_their_bytes(buf, ip);
        let start = ip + (buf[ip] % 16) * 4 + 8;
        assert(frame::udp_start(buf, ip) + 8 == start);
        assert(payload =~= buf.subrange(start, start + payload.len()));
        assert(buf[ip] % 16 >= 5);
    }
}

/// Which packets a route is for, by its two lists: with an include list those from its
/// addresses that are not excluded, with an exclude list alone those from all others; a packet
/// of unknown address only where there is neither list.
pub proof fn law_route_is_for_its_lists(route: PcapRoute, ip: Ipv4Addr, listed: u32)
    ensures
        route.include_ips@.contains(listed) ==> {
            &&& route.has_filter()
            &&& !route.admits(None)
            &&& route.admits(Some(ip)) <==> route.include_ips@.contains(ip.0)
                && !route.exclude_ips@.contains(ip.0)
        },
        route.exclude_ips@.contains(listed) ==> {
            &&& route.has_filter()
            &&& !route.admits(None)
            &&& (forall|other: u32| !(#[trigger] route.include_ips@.contains(other))) ==> (
            route.admits(Some(ip)) <==> !route.exclude_ips@.contains(ip.0))
        },
        (forall|other: u32|
            !(#[trigger] route.include_ips@.contains(other)) && !route.exclude_ips@.contains(other))
            ==> {
            &&& !route.has_filter()
            &&& route.admits(None)
            &&& route.admits(Some(ip))
        },
{
    if forall|other: u32| !(#[trigger] route.include_ips@.contains(other)) {
        assert(route.include_ips@ =~= Set::empty());
    }
    if forall|other: u32|
        !(#[trigger] route.include_ips@.contains(other)) && !route.exclude_ips@.contains(other) {
        assert(route.exclude_ips@ =~= Set::empty());
    }
}

/// Addresses matter to a set of routes exactly where one of them has a list.
pub proof fn law_addresses_matter_where_a_route_has_a_list(routes: Seq<PcapRoute>)
    ensures
        any_filter(routes) <==> exists|i: int, listed: u32|
            0 <= i < routes.len() && (#[trigger] routes[i].include_ips@.contains(listed)
                || routes[i].exclude_ips@.contains(listed)),
{
    if any_filter(routes) {
        let i = choose|i: int| 0 <= i < routes.len() && (#[trigger] routes[i]).has_filter();
        let route = routes[i];
        if forall|other: u32| !(#[trigger] route.include_ips@.contains(other)) {
            assert(route.include_ips@ =~= Set::empty());
            let listed = choose|listed: u32| route.exclude_ips@.contains(listed);
            if !route.exclude_ips@.contains(listed) {
                assert(route.exclude_ips@ =~= Set::empty());
            }
            assert(!routes[i].include_ips@.contains(listed));
        }
    }
}

/// The events for two sets of routes together are those for the first followed by those for
/// the second; a single route gives its event where it admits the address, and else none. So
/// what a route gets does not depend on the others.
pub proof fn law_routes_add_up(
    routes: Seq<PcapRoute>,
    more: Seq<PcapRoute>,
    route: PcapRoute,
    src_ip: Option<Ipv4Addr>,
    key: ShredKey,
    received_at: Instant,
)
    ensures
        shred_events(routes + more, src_ip, key, received_at) == shred_events(
            routes,
            src_ip,
            key,
            received_at,
        ) + shred_events(more, src_ip, key, received_at),
        shred_events(seq![route], src_ip, key, received_at) == (if route.admits(src_ip) {
            seq![ShredEvent { source: route.source_id, key, received_at }]
        } else {
            Seq::empty()
        }),
        shred_events(Seq::empty(), src_ip, key, received_at).len() == 0,
    decreases more.len(),
{
    let front = shred_events(routes, src_ip, key, received_at);
    let single = seq![route];
    assert(single.drop_last() =~= Seq::empty());
    assert(shred_events(Seq::empty(), src_ip, key, received_at) =~= Seq::empty());
    if route.admits(src_ip) {
        assert(shred_events(single, src_ip, key, received_at) =~= seq![
            ShredEvent { source: route.source_id, key, received_at },
        ]);
    }
    if more.len() == 0 {
        assert(routes + more =~= routes);
        assert(front + Seq::<ShredEvent>::empty() =~= front);
    } else {
        law_routes_add_up(routes, more.drop_last(), route, src_ip, key, received_at);
        assert((routes + more).drop_last() =~= routes + more.drop_last());
        let back = shred_events(more.drop_last(), src_ip, key, received_at);
        if more.last().admits(src_ip) {
            let event = ShredEvent { source: more.last().source_id, key, received_at };
            assert((front + back).push(event) =~= front + back.push(event));
        }
    }
}

/// A shred raises the counters of the routes that get an event for it by one, and no other
/// counter.
pub proof fn law_counters_follow_the_events(
    routes: Seq<PcapRoute>,
    counts: Seq<u64>,
    src_ip: Option<Ipv4Addr>,
    key: ShredKey,
    received_at: Instant,
    i: int,
)
    requires
        counts.len() == routes.len(),
        0 <= i < routes.len(),
        counts[i] < u64::MAX,
    ensures
        counts_after(routes, counts, src_ip).len() == counts.len(),
        counts_after(routes, counts, src_ip)[i] - counts[i] == shred_events(
            seq![routes[i]],
            src_ip,
            key,
            received_at,
        ).len(),
{
    law_routes_add_up(routes, Seq::empty(), routes[i], src_ip, key, received_at);
}

/// Every frame counts once; a shred counts once as such, and for the routes that admit it.
/// The routes themselves never change.
pub proof fn law_every_frame_counts_once(
    before: Capture,
    after: Capture,
    src_ip: Option<Ipv4Addr>,
    i: int,
)
    requires
        before.wf(),
        before.raw_count < u64::MAX,
        0 <= i < before.routes@.len(),
    ensures
        before.route_counts@[i] <= before.parsed_count <= before.raw_count,
        after.only_saw_a_frame(before) ==> {
            &&& after.routes@ == before.routes@
            &&& after.raw_count == before.raw_count + 1
            &&& after.parsed_count == before.parsed_count
            &&& after.route_counts@ == before.route_counts@
        },
        after.saw_a_shred(before, src_ip) ==> {
            &&& after.routes@ == before.routes@
            &&& after.raw_count == before.raw_count + 1
            &&& after.parsed_count == before.parsed_count + 1
            &&& after.route_counts@.len() == before.route_counts@.len()
            &&& after.route_counts@[i] == before.route_counts@[i] + (if before.routes@[i].admits(
                src_ip,
            ) {
                1int
            } else {
                0
            })
        },
{
}

/// The setup gives up exactly where the socket, the filter or the interface was refused, and
/// says why: a socket refused with error number 1 is a missing permission, an interface that
/// is not found is told as such, and anything else is the operating system's error.
pub proof fn law_setup_fails_where_it_must(
    setup: CaptureSetup,
    step: SetupStep,
    outcome: StepOutcome,
    code: Option<i32>,
)
    requires
        step !is Fail,
        outcome == (StepOutcome::Failed { raw_os_error: code }),
    ensures
        step_after(setup, step, outcome) is Fail <==> step is Open || step is AttachFilter
            || step is FindInterface || step is Bind,
        step is Open ==> (step_after(setup, step, outcome) == SetupStep::Fail(
            SetupFailure::PermissionDenied,
        ) <==> code == Some(1i32)),
        step is Open && code != Some(1i32) ==> step_after(setup, step, outcome)
            == SetupStep::Fail(SetupFailure::Os),
        step is AttachFilter || step is Bind ==> step_after(setup, step, outcome)
            == SetupStep::Fail(SetupFailure::Os),
        step is FindInterface ==> step_after(setup, step, outcome) == SetupStep::Fail(
            SetupFailure::InterfaceNotFound,
        ),
        step is SetRecvBuf ==> step_after(setup, step, outcome) is SetTimeout,
        step is SetTimeout ==> step_after(setup, step, outcome) is EnableTimestamps,
        step is EnableTimestamps ==> step_after(setup, step, outcome) == (SetupStep::Capture {
            kernel_timestamps: false,
        }),
{
}

/// The setup that meets no refusal: it opens the socket and attaches the filter; finds and
/// binds the interface where there is one to bind; asks for a receive buffer of the given size
/// where there is one; then sets the timeout, asks for timestamps, and captures with them.
pub proof fn law_setup_takes_its_steps_in_order(setup: CaptureSetup, size: i32)
    ensures
        ({
            let next = |step: SetupStep| step_after(setup, step, StepOutcome::Done);
            &&& next(SetupStep::Open) is AttachFilter
            &&& setup.bind_interface ==> next(SetupStep::AttachFilter) is FindInterface
            &&& next(SetupStep::FindInterface) is Bind
            &&& !setup.bind_interface ==> next(SetupStep::AttachFilter) == next(SetupStep::Bind)
            &&& setup.recv_buf == Some(size) ==> next(SetupStep::Bind) == SetupStep::SetRecvBuf(
                size,
            )
            &&& setup.recv_buf is None ==> next(SetupStep::Bind) is SetTimeout
            &&& next(SetupStep::SetRecvBuf(size)) is SetTimeout
            &&& next(SetupStep::SetTimeout) is EnableTimestamps
            &&& next(SetupStep::EnableTimestamps) == (SetupStep::Capture {
                kernel_timestamps: true,
            })
        }),
{
}

/// A setup that has come to capture, or has failed, stays as it is.
pub proof fn law_setup_stays_where_it_ended(
    setup: CaptureSetup,
    step: SetupStep,
    outcome: StepOutcome,
)
    requires
        step is Capture || step is Fail,
    ensures
        step_after(setup, step, outcome) == step,
{
}

/// A capture is consistent where its counters fit each other, it has one for every route, and
/// it looks at addresses exactly where a route has a list.
pub proof fn law_fitting_counters_are_consistent(capture: Capture)
    requires
        capture.has_any_filter <==> exists|i: int, listed: u32|
            0 <= i < capture.routes@.len() && (#[trigger] capture.routes@[i].include_ips@.contains(
                listed,
            ) || capture.routes@[i].exclude_ips@.contains(listed)),
        capture.route_counts@.len() == capture.routes@.len(),
        capture.parsed_count <= capture.raw_count,
        forall|i: int|
            0 <= i < capture.routes@.len() ==> #[trigger] capture.route_counts@[i]
                <= capture.parsed_count,
    ensures
        capture.wf(),
{
    law_addresses_matter_where_a_route_has_a_list(capture.routes@);
}

} // verus!
