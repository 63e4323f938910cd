//! The decision on a single packet.
//!
//! The tables that decide live in the kernel. A [`PacketRun`] asks for one
//! thing at a time: a lookup, a count, or the end with its verdict. Whoever
//! runs it performs the request and feeds the answer back.
use vstd::prelude::*;

use crate::network::{address_from_octets, LpmKey};
use crate::packet::{read_headers, Headers};
use crate::stats::{RuntimeControls, StatType};

verus! {

/// What happens to a packet.
#[derive(Clone, Copy, Debug, PartialEq, Eq, Structural)]
pub enum XdpAction {
    Pass,
    Drop,
}

/// What is known of a UDP packet while its fate is being decided. The source
/// is kept in both byte orders: the integer for the tables keyed by host-order
/// integers, the bytes for the longest-prefix-match table.
#[derive(Clone, Copy, Debug, PartialEq, Eq)]
pub struct Flow {
    pub source_addr: u32,
    pub src_bytes: [u8; 4],
    pub dest_port: u16,
    pub close_to_leader: bool,
}

/// A packet on its way to a verdict, named after what is to be done next.
#[derive(Clone, Copy, Debug, PartialEq, Eq)]
pub enum PacketRun {
    /// Find out whether the destination port is protected.
    Port(Flow),
    /// Count the packet.
    CountAll(Flow),
    /// Count the packet as one that came far from the leader slot.
    CountFar(Flow),
    /// Count the packet as QUIC 0-RTT.
    CountZeroRtt(Flow),
    /// Look the source up in the list that decides.
    Source(Flow),
    /// Count the packet as blocked.
    CountBlocked(Flow),
    /// Nothing: the verdict stands.
    Finished(XdpAction),
}

/// What a packet run asks for.
#[derive(Clone, Copy, Debug, PartialEq, Eq)]
pub enum PacketRequest {
    /// Is the port in the table of protected ports?
    FindPort(u16),
    /// Count a packet of this address; the answer is ignored.
    Count(u32, StatType),
    /// Is the address in the deny list?
    FindDenied(u32),
    /// Does the allow list hold a prefix of the key's address?
    FindAllowed(LpmKey),
    /// Let this happen to the packet; there is nothing to answer.
    Finish(XdpAction),
}

/// Whether a packet is QUIC 0-RTT. Detection does not exist yet, so none is.
pub fn is_quic_zero_rtt(source_addr: u32) -> (r: bool)
    ensures
        !r,
{
    false
}

/// The source may send to a protected port: close to the leader slot it may
/// unless the deny list holds it, otherwise only if the allow list does.
/// `found` tells whether the list that decides holds it.
pub fn is_allowed(close_to_leader: bool, found: bool) -> (r: bool)
    ensures
        r == if close_to_leader {
            !found
        } else {
            found
        },
{
    if close_to_leader {
        !found
    } else {
        found
    }
}

/// The controls in force: without any from the control plane the filter is on
/// and close to the leader slot.
pub open spec fn controls_in_force(cnc: Option<RuntimeControls>) -> RuntimeControls {
    match cnc {
        Some(controls) => controls,
        None => RuntimeControls { global_enabled: true, close_to_leader: true },
    }
}

/// The run that a frame starts: UDP over IPv4 has its port looked up,
/// everything else passes. A truncated frame has no run.
pub open spec fn started(data: Seq<u8>, close_to_leader: bool) -> Result<PacketRun, ()> {
    match crate::packet::headers_of(data) {
        Headers::Truncated => Err(()),
        Headers::Other => Ok(PacketRun::Finished(XdpAction::Pass)),
        Headers::Udp { src_bytes, dest_port } => Ok(
            PacketRun::Port(
                Flow {
                    source_addr: crate::network::address_of(src_bytes),
                    src_bytes,
                    dest_port,
                    close_to_leader,
                },
            ),
        ),
    }
}

/// Starts the run of a frame, or fails where the frame is too short for the
/// headers it should have.
pub fn try_process_packet(data: &[u8], close_to_leader: bool) -> (r: Result<PacketRun, ()>)
    ensures
        r == started(data@, close_to_leader),
{
    match read_headers(data) {
        Headers::Truncated => Err(()),
        Headers::Other => Ok(PacketRun::Finished(XdpAction::Pass)),
        Headers::Udp { src_bytes, dest_port } => {
            let source_addr: u32 = address_from_octets(src_bytes);
            Ok(PacketRun::Port(Flow { source_addr, src_bytes, dest_port, close_to_leader }))
        },
    }
}

/// The run with which the firewall meets a frame: a filter that is off lets
/// it pass, and so does one that cannot read it.
pub open spec fn admitted(cnc: Option<RuntimeControls>, data: Seq<u8>) -> PacketRun {
    let controls = controls_in_force(cnc);
    if controls.global_enabled {
        match started(data, controls.close_to_leader) {
            Ok(run) => run,
            Err(_) => PacketRun::Finished(XdpAction::Pass),
        }
    } else {
        PacketRun::Finished(XdpAction::Pass)
    }
}

/// Meets a frame, under the controls that the control plane has set, if any.
pub fn validator_firewall(cnc: Option<RuntimeControls>, data: &[u8]) -> (r: PacketRun)
    ensures
        r == admitted(cnc, data@),
{
    let controls = match cnc {
        Some(controls) => controls,
        None => RuntimeControls { global_enabled: true, close_to_leader: true },
    };
    if controls.global_enabled {
        match try_process_packet(data, controls.close_to_leader) {
            Ok(run) => run,
            Err(_) => PacketRun::Finished(XdpAction::Pass),
        }
    } else {
        PacketRun::Finished(XdpAction::Pass)
    }
}

impl PacketRun {
    /// What the run asks for.
    pub open spec fn asks(self) -> PacketRequest {
        match self {
            PacketRun::Port(flow) => PacketRequest::FindPort(flow.dest_port),
            PacketRun::CountAll(flow) => PacketRequest::Count(flow.source_addr, StatType::All),
            PacketRun::CountFar(flow) => PacketRequest::Count(
                flow.source_addr,
                StatType::FarFromLeader,
            ),
            PacketRun::CountZeroRtt(flow) => PacketRequest::Count(
                flow.source_addr,
                StatType::ZeroRtt,
            ),
            PacketRun::Source(flow) => if flow.close_to_leader {
                PacketRequest::FindDenied(flow.source_addr)
            } else {
                PacketRequest::FindAllowed(LpmKey { prefix_len: 32, data: flow.src_bytes })
            },
            PacketRun::CountBlocked(flow) => PacketRequest::Count(
                flow.source_addr,
                StatType::Blocked,
            ),
            PacketRun::Finished(action) => PacketRequest::Finish(action),
        }
    }

    /// The run after its request was answered.
    pub open spec fn after(self, found: bool) -> PacketRun {
        match self {
            PacketRun::Port(flow) => if found {
                PacketRun::CountAll(flow)
            } else {
                PacketRun::Finished(XdpAction::Pass)
            },
            PacketRun::CountAll(flow) => if flow.close_to_leader {
                PacketRun::Source(flow)
            } else {
                PacketRun::CountFar(flow)
            },
            PacketRun::CountFar(flow) => PacketRun::Source(flow),
            PacketRun::CountZeroRtt(flow) => PacketRun::Source(flow),
            PacketRun::Source(flow) => if found != flow.close_to_leader {
                PacketRun::Finished(XdpAction::Pass)
            } else {
                PacketRun::CountBlocked(flow)
            },
            PacketRun::CountBlocked(flow) => PacketRun::Finished(XdpAction::Drop),
            PacketRun::Finished(action) => PacketRun::Finished(action),
        }
    }

    /// What the run asks for.
    pub fn request(&self) -> (r: PacketRequest)
        ensures
            r == self.asks(),
    {
        match *self {
            PacketRun::Port(flow) => PacketRequest::FindPort(flow.dest_port),
            PacketRun::CountAll(flow) => PacketRequest::Count(flow.source_addr, StatType::All),
            PacketRun::CountFar(flow) => PacketRequest::Count(
                flow.source_addr,
                StatType::FarFromLeader,
            ),
            PacketRun::CountZeroRtt(flow) => PacketRequest::Count(
                flow.source_addr,
                StatType::ZeroRtt,
            ),
            PacketRun::Source(flow) => if flow.close_to_leader {
                PacketRequest::FindDenied(flow.source_addr)
            } else {
                PacketRequest::FindAllowed(LpmKey { prefix_len: 32, data: flow.src_bytes })
            },
            PacketRun::CountBlocked(flow) => PacketRequest::Count(
                flow.source_addr,
                StatType::Blocked,
            ),
            PacketRun::Finished(action) => PacketRequest::Finish(action),
        }
    }

    /// Takes the answer to the run's request.
    pub fn answer(self, found: bool) -> (r: PacketRun)
        ensures
            r == self.after(found),
    {
        match self {
            PacketRun::Port(flow) => if found {
                PacketRun::CountAll(flow)
            } else {
                PacketRun::Finished(XdpAction::Pass)
            },
            PacketRun::CountAll(flow) => if !flow.close_to_leader {
                PacketRun::CountFar(flow)
            } else if is_quic_zero_rtt(flow.source_addr) {
                PacketRun::CountZeroRtt(flow)
            } else {
                PacketRun::Source(flow)
            },
            PacketRun::CountFar(flow) => if is_quic_zero_rtt(flow.source_addr) {
                PacketRun::CountZeroRtt(flow)
            } else {
                PacketRun::Source(flow)
            },
            PacketRun::CountZeroRtt(flow) => PacketRun::Source(flow),
            PacketRun::Source(flow) => if is_allowed(flow.close_to_leader, found) {
                PacketRun::Finished(XdpAction::Pass)
            } else {
                PacketRun::CountBlocked(flow)
            },
            PacketRun::CountBlocked(flow) => PacketRun::Finished(XdpAction::Drop),
            PacketRun::Finished(action) => PacketRun::Finished(action),
        }
    }

    /// How many more answers the run can take at most.
    pub open spec fn steps_left(self) -> nat {
        match self {
            PacketRun::Port(_) => 6,
            PacketRun::CountAll(_) => 5,
            PacketRun::CountFar(_) => 4,
            PacketRun::CountZeroRtt(_) => 3,
            PacketRun::Source(_) => 2,
            PacketRun::CountBlocked(_) => 1,
            PacketRun::Finished(_) => 0,
        }
    }
}

/// What the kernel tables hold.
pub struct Tables {
    /// The protected ports.
    pub ports: Set<u16>,
    /// The deny list, by host-order integers.
    pub denied: Set<u32>,
    /// The entries of the longest-prefix-match allow list.
    pub allowed: Set<LpmKey>,
}

impl Tables {
    /// The allow list answers a lookup of the key: some entry, with no more bits
    /// that count than the key has, matches the key's address.
    pub open spec fn finds(self, key: LpmKey) -> bool {
        exists|entry: LpmKey| #[trigger]
            self.allowed.contains(entry) && entry.prefix_len <= key.prefix_len
                && crate::network::lpm_matches(entry, key.data)
    }

    /// Some entry of the allow list, with at most the 32 bits of an address,
    /// matches the address.
    pub open spec fn allows(self, octets: [u8; 4]) -> bool {
        exists|entry: LpmKey| #[trigger]
            self.allowed.contains(entry) && entry.prefix_len <= 32 && crate::network::lpm_matches(
                entry,
                octets,
            )
    }

    /// The answer that the tables give to a request.
    pub open spec fn answer(self, request: PacketRequest) -> bool {
        match request {
            PacketRequest::FindPort(port) => self.ports.contains(port),
            PacketRequest::FindDenied(address) => self.denied.contains(address),
            PacketRequest::FindAllowed(key) => self.finds(key),
            PacketRequest::Count(_, _) => true,
            PacketRequest::Finish(_) => true,
        }
    }

    /// A packet from this source to a protected port may pass.
    pub open spec fn admits(self, octets: [u8; 4], close_to_leader: bool) -> bool {
        if close_to_leader {
            !self.denied.contains(crate::network::address_of(octets))
        } else {
            self.allows(octets)
        }
    }
}

/// What a run comes to when the tables answer it: the verdict, and what was
/// counted on the way, in order.
pub open spec fn driven(run: PacketRun, tables: Tables) -> (XdpAction, Seq<(u32, StatType)>)
    decreases run.steps_left(),
{
    match run.asks() {
        PacketRequest::Finish(action) => (action, Seq::empty()),
        PacketRequest::Count(address, stat_type) => {
            let rest = driven(run.after(true), tables);
            (rest.0, seq![(address, stat_type)] + rest.1)
        },
        request => driven(run.after(tables.answer(request)), tables),
    }
}

/// What becomes of a frame. Where the filter is on and the frame is UDP over
/// IPv4 to a protected port, it passes if the source is admitted and is dropped
/// if not; it is counted, counted again where the leader slot is far, and once
/// more where it is dropped. Every other frame passes uncounted.
pub open spec fn outcome(cnc: Option<RuntimeControls>, data: Seq<u8>, tables: Tables) -> (
    XdpAction,
    Seq<(u32, StatType)>,
) {
    let controls = controls_in_force(cnc);
    match crate::packet::headers_of(data) {
        Headers::Udp { src_bytes, dest_port } if controls.global_enabled && tables.ports.contains(
            dest_port,
        ) => {
            let address = crate::network::address_of(src_bytes);
            let admitted = tables.admits(src_bytes, controls.close_to_leader);
            let far: Seq<(u32, StatType)> = if controls.close_to_leader {
                Seq::empty()
            } else {
                seq![(address, StatType::FarFromLeader)]
            };
            let blocked: Seq<(u32, StatType)> = if admitted {
                Seq::empty()
            } else {
                seq![(address, StatType::Blocked)]
            };
            (
                if admitted {
                    XdpAction::Pass
                } else {
                    XdpAction::Drop
                },
                seq![(address, StatType::All)] + far + blocked,
            )
        },
        _ => (XdpAction::Pass, Seq::empty()),
    }
}

/// Answered by the tables, the run of a frame comes to exactly the verdict and
/// the counts that the rules call for.
pub proof fn law_run_follows_rules(
    cnc: Option<RuntimeControls>,
    data: Seq<u8>,
    tables: Tables,
)
    ensures
        driven(admitted(cnc, data), tables) == outcome(cnc, data, tables),
{
    reveal_with_fuel(driven, 7);
    assert(driven(admitted(cnc, data), tables).1 =~= outcome(cnc, data, tables).1);
}

} // verus!
