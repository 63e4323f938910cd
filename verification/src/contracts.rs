//! What the operations of the library return for their arguments, said of the
//! calls themselves: of whatever a call may return, and of how the results of
//! several calls go together.
use std::ops::RangeInclusive;
use std::sync::Arc;
use vstd::prelude::*;

use crate::datapath::{PacketRequest, PacketRun, XdpAction};
use crate::deny_client::{DenyListClient, DenyListError, DenyListService, NoOpDenyListClient};
use crate::network::{CidrError, Ipv4Cidr, LpmKey};
use crate::overrides::{AllowListPlan, StaticOverrides};
use crate::packet::Headers;
use crate::refresh::{RefreshRequest, RefreshRun, RefreshView};
use crate::seeding::SeedProgress;
use crate::stats::{ConnectionStats, RuntimeControls, StatType};
use crate::tasks::{LogLevel, LogLine, TaskFailure};
use crate::updater::{DenyListStateUpdater, RunAction, RunEvent, RunState, SeedStep};

verus! {

/// A network is made of exactly the pairs of a length of at most 32 and a
/// multiple of `2^(32 - length)`, and then tells the address, the last address
/// of its block and the length.
pub proof fn law_network_tells_its_pair(
    address: u32,
    length: u8,
    r: Result<Ipv4Cidr, CidrError>,
    first: u32,
    last: u32,
    told_length: u8,
)
    requires
        call_ensures(Ipv4Cidr::new, (address, length), r),
        r matches Ok(c) ==> call_ensures(Ipv4Cidr::first_address, (&c,), first) && call_ensures(
            Ipv4Cidr::last_address,
            (&c,),
            last,
        ) && call_ensures(Ipv4Cidr::network_length, (&c,), told_length),
    ensures
        r is Ok <==> length <= 32 && address as int % vstd::arithmetic::power2::pow2(
            (32 - length) as nat,
        ) as int == 0,
        r is Ok ==> first == address && told_length == length && last == address
            + vstd::arithmetic::power2::pow2((32 - length) as nat) - 1,
        r matches Err(e) ==> e == if length > 32 {
            CidrError::NetworkLengthTooLong
        } else {
            CidrError::InvalidHostPart
        },
{
}

/// What a text stands for depends on the text alone, and a text without a slash
/// names a single host.
pub proof fn law_text_names_one_network(
    text: &str,
    same: &str,
    r: Result<Ipv4Cidr, CidrError>,
    s: Result<Ipv4Cidr, CidrError>,
)
    requires
        call_ensures(Ipv4Cidr::from_str, (text,), r),
        call_ensures(Ipv4Cidr::from_str, (same,), s),
        text@ == same@,
    ensures
        r is Ok <==> s is Ok,
        r matches Ok(c) ==> s matches Ok(d) && c.first() == d.first() && c.length() == d.length(),
        r matches Err(e) ==> s matches Err(f) && e == f,
        r matches Ok(c) ==> !text@.contains('/') ==> c.length() == 32,
        r matches Ok(c) ==> c.length() <= 32 && c.first() as int % vstd::arithmetic::power2::pow2(
            (32 - c.length()) as nat,
        ) as int == 0,
{
}

/// The range of a network runs from its first to its last address.
pub proof fn law_range_is_the_block(network: Ipv4Cidr, r: RangeInclusive<u32>)
    requires
        call_ensures(crate::network::to_range, (network,), r),
    ensures
        r@.start == network.first(),
        r@.end == network.first() + vstd::arithmetic::power2::pow2(
            (32 - network.length()) as nat,
        ) - 1,
        !r@.exhausted,
{
}

/// The bytes of an address and its integer go together, most significant byte
/// first, and so do a network and its key.
pub proof fn law_bytes_and_integers_agree(
    bytes: [u8; 4],
    joined: u32,
    address: u32,
    split: [u8; 4],
    network: Ipv4Cidr,
    key: LpmKey,
)
    requires
        call_ensures(crate::network::address_from_octets, (bytes,), joined),
        call_ensures(crate::network::octets, (address,), split),
        call_ensures(Ipv4Cidr::lpm_key, (&network,), key),
    ensures
        joined == bytes[0] * 0x1000000 + bytes[1] * 0x10000 + bytes[2] * 0x100 + bytes[3],
        address == split[0] * 0x1000000 + split[1] * 0x10000 + split[2] * 0x100 + split[3],
        key.prefix_len == network.length(),
        network.first() == key.data[0] * 0x1000000 + key.data[1] * 0x10000 + key.data[2] * 0x100
            + key.data[3],
{
    crate::network::law_octets_round_trip(address);
    crate::network::law_octets_round_trip(network.first());
}

/// An item stands at its offset exactly if the data does not end before it.
pub proof fn law_items_stand_inside(
    start: usize,
    end: usize,
    offset: usize,
    len: usize,
    r: Result<usize, ()>,
)
    requires
        call_ensures(crate::packet::ptr_at, (start, end, offset, len), r),
        start + offset + len <= usize::MAX,
    ensures
        r is Ok <==> start + offset + len <= end,
        r matches Ok(at) ==> at == start + offset,
{
}

/// What is read from the headers of a frame, said of its bytes: its length
/// counts only as far as it is too short for a header that has to be read.
pub proof fn law_headers_are_read_from_bytes(data: &[u8], r: Headers)
    requires
        call_ensures(crate::packet::read_headers, (data,), r),
    ensures
        r is Truncated <==> data@.len() < 14 || (data@[12] == 0x08 && data@[13] == 0x00 && (
        data@.len() < 34 || (data@[23] == 17 && data@.len() < 42))),
        r is Udp <==> data@.len() >= 42 && data@[12] == 0x08 && data@[13] == 0x00 && data@[23]
            == 17,
        r matches Headers::Udp { src_bytes, dest_port } ==> src_bytes[0] == data@[26]
            && src_bytes[1] == data@[27] && src_bytes[2] == data@[28] && src_bytes[3] == data@[29]
            && dest_port == data@[36] * 0x100 + data@[37],
{
}

/// A frame fails to be processed exactly if its headers are truncated; any
/// other goes the way that it goes through a filter that is on.
pub proof fn law_processing_fails_on_short_frames(
    data: &[u8],
    close_to_leader: bool,
    r: Result<PacketRun, ()>,
    met: PacketRun,
)
    requires
        call_ensures(crate::datapath::try_process_packet, (data, close_to_leader), r),
        call_ensures(
            crate::datapath::validator_firewall,
            (Some(RuntimeControls { global_enabled: true, close_to_leader }), data),
            met,
        ),
    ensures
        r is Err <==> data@.len() < 14 || (data@[12] == 0x08 && data@[13] == 0x00 && (data@.len()
            < 34 || (data@[23] == 17 && data@.len() < 42))),
        r matches Ok(run) ==> run == met,
{
}

/// The first thing that the firewall asks for: the destination port of a frame
/// of at least 42 bytes with UDP over IPv4, if the filter is on, which it also
/// is without any controls. Every other frame passes at once.
pub proof fn law_firewall_asks_for_the_port_first(
    cnc: Option<RuntimeControls>,
    data: &[u8],
    run: PacketRun,
    request: PacketRequest,
)
    requires
        call_ensures(crate::datapath::validator_firewall, (cnc, data), run),
        call_ensures(PacketRun::request, (&run,), request),
    ensures
        ({
            let enabled = match cnc {
                Some(controls) => controls.global_enabled,
                None => true,
            };
            request == if enabled && data@.len() >= 42 && data@[12] == 0x08 && data@[13] == 0x00
                && data@[23] == 17 {
                PacketRequest::FindPort((data@[36] * 0x100 + data@[37]) as u16)
            } else {
                PacketRequest::Finish(XdpAction::Pass)
            }
        }),
{
}

/// What follows once the port of a frame was found protected. The packet is
/// counted for its source, then, far from the leader slot, counted as such; then
/// the source is looked up, by its integer in the deny list close to the leader
/// slot and by its bytes in the allow list far from it.
pub proof fn law_firewall_looks_the_source_up(
    cnc: Option<RuntimeControls>,
    data: &[u8],
    counted: bool,
    counted_far: bool,
    start: PacketRun,
    protected: PacketRun,
    second: PacketRun,
    third: PacketRun,
    asked_first: PacketRequest,
    asked_second: PacketRequest,
    asked_third: PacketRequest,
)
    requires
        cnc matches Some(controls) ==> controls.global_enabled,
        data@.len() >= 42,
        data@[12] == 0x08,
        data@[13] == 0x00,
        data@[23] == 17,
        call_ensures(crate::datapath::validator_firewall, (cnc, data), start),
        call_ensures(PacketRun::answer, (start, true), protected),
        call_ensures(PacketRun::answer, (protected, counted), second),
        call_ensures(PacketRun::answer, (second, counted_far), third),
        call_ensures(PacketRun::request, (&protected,), asked_first),
        call_ensures(PacketRun::request, (&second,), asked_second),
        call_ensures(PacketRun::request, (&third,), asked_third),
    ensures
        ({
            let source = (data@[26] * 0x1000000 + data@[27] * 0x10000 + data@[28] * 0x100
                + data@[29]) as u32;
            let near = match cnc {
                Some(controls) => controls.close_to_leader,
                None => true,
            };
            &&& asked_first == PacketRequest::Count(source, StatType::All)
            &&& near ==> asked_second == PacketRequest::FindDenied(source)
            &&& !near ==> asked_second == PacketRequest::Count(source, StatType::FarFromLeader)
            &&& !near ==> (asked_third matches PacketRequest::FindAllowed(key) && key.prefix_len
                == 32 && key.data[0] == data@[26] && key.data[1] == data@[27] && key.data[2]
                == data@[28] && key.data[3] == data@[29])
        }),
{
}

/// How a lookup of the source decides: a source found in the deny list, or not
/// found in the allow list, is counted as blocked and its packet dropped; any
/// other packet passes. A lookup of the port that finds nothing lets it pass.
pub proof fn law_lookups_decide(
    run: PacketRun,
    request: PacketRequest,
    found: bool,
    next: PacketRun,
    then: PacketRequest,
    counted: bool,
    last: PacketRun,
    verdict: PacketRequest,
)
    requires
        call_ensures(PacketRun::request, (&run,), request),
        call_ensures(PacketRun::answer, (run, found), next),
        call_ensures(PacketRun::request, (&next,), then),
        call_ensures(PacketRun::answer, (next, counted), last),
        call_ensures(PacketRun::request, (&last,), verdict),
    ensures
        request is FindPort && !found ==> then == PacketRequest::Finish(XdpAction::Pass),
        request is FindPort && found ==> (then matches PacketRequest::Count(_, stat_type)
            && stat_type == StatType::All),
        (request is FindDenied && !found) || (request is FindAllowed && found) ==> then
            == PacketRequest::Finish(XdpAction::Pass),
        (request is FindDenied && found) || (request is FindAllowed && !found) ==> (
        then matches PacketRequest::Count(_, stat_type) && stat_type == StatType::Blocked)
            && verdict == PacketRequest::Finish(XdpAction::Drop),
        request matches PacketRequest::FindDenied(source) ==> then matches PacketRequest::Count(
            address,
            _,
        ) ==> address == source,
        request matches PacketRequest::Finish(action) ==> then == PacketRequest::Finish(action),
{
}

/// The list that decides admits what the deny list does not hold, and what the
/// allow list holds. No packet is taken for QUIC 0-RTT.
pub proof fn law_lists_admit(found: bool, near: bool, far: bool, source: u32, zero_rtt: bool)
    requires
        call_ensures(crate::datapath::is_allowed, (true, found), near),
        call_ensures(crate::datapath::is_allowed, (false, found), far),
        call_ensures(crate::datapath::is_quic_zero_rtt, (source,), zero_rtt),
    ensures
        near == !found,
        far == found,
        !zero_rtt,
{
}

/// A packet of an address without an entry starts a record in which nothing was
/// counted; counting adds one to the field of its type and leaves the other
/// three alone.
pub proof fn law_packets_are_counted(
    found: bool,
    fresh: Option<ConnectionStats>,
    entry: Option<ConnectionStats>,
    stat_type: StatType,
    r: Option<ConnectionStats>,
)
    requires
        call_ensures(crate::stats::missing_entry, (found,), fresh),
        call_ensures(crate::stats::increment_counter, (entry, stat_type), r),
        entry matches Some(stats) ==> stats.pkt_count < u64::MAX && stats.blocked_pkt_count
            < u64::MAX && stats.far_from_leader_pkt_count < u64::MAX && stats.zero_rtt_pkt_count
            < u64::MAX,
    ensures
        fresh is Some <==> !found,
        fresh matches Some(stats) ==> stats.pkt_count == 0 && stats.blocked_pkt_count == 0
            && stats.far_from_leader_pkt_count == 0 && stats.zero_rtt_pkt_count == 0,
        r is Some <==> entry is Some,
        r matches Some(after) ==> entry matches Some(before) && after.pkt_count - before.pkt_count
            == (if stat_type == StatType::All {
            1int
        } else {
            0int
        }) && after.blocked_pkt_count - before.blocked_pkt_count == (if stat_type
            == StatType::Blocked {
            1int
        } else {
            0int
        }) && after.far_from_leader_pkt_count - before.far_from_leader_pkt_count == (if stat_type
            == StatType::FarFromLeader {
            1int
        } else {
            0int
        }) && after.zero_rtt_pkt_count - before.zero_rtt_pkt_count == (if stat_type
            == StatType::ZeroRtt {
            1int
        } else {
            0int
        }),
{
}

/// A record tells the count of each type from its field.
pub proof fn law_records_tell_their_counts(
    stats: ConnectionStats,
    all: u64,
    blocked: u64,
    far: u64,
    zero_rtt: u64,
)
    requires
        call_ensures(ConnectionStats::count_of, (&stats, StatType::All), all),
        call_ensures(ConnectionStats::count_of, (&stats, StatType::Blocked), blocked),
        call_ensures(ConnectionStats::count_of, (&stats, StatType::FarFromLeader), far),
        call_ensures(ConnectionStats::count_of, (&stats, StatType::ZeroRtt), zero_rtt),
    ensures
        all == stats.pkt_count,
        blocked == stats.blocked_pkt_count,
        far == stats.far_from_leader_pkt_count,
        zero_rtt == stats.zero_rtt_pkt_count,
{
}

/// A reply is accepted exactly if its status is one of success, and otherwise
/// described by the status as it is displayed.
pub proof fn law_only_success_is_accepted(
    status: u16,
    shown: &str,
    r: Result<(), DenyListError>,
    text: String,
)
    requires
        call_ensures(crate::deny_client::check_status, (status, shown), r),
        r matches Err(e) ==> call_ensures(DenyListError::message, (&e,), text),
    ensures
        r is Ok <==> 200 <= status <= 299,
        r is Err ==> text@ == "deny-list service returned non-success status: "@ + shown@,
{
}

/// A reply yields all of its networks in order, or the position of its first
/// bad entry with the reason.
pub proof fn law_replies_are_taken_whole(
    read: Vec<Result<Ipv4Cidr, CidrError>>,
    r: Result<Vec<Ipv4Cidr>, DenyListError>,
)
    requires
        call_ensures(crate::deny_client::collect_networks, (&read,), r),
    ensures
        r is Ok <==> forall|i: int| 0 <= i < read@.len() ==> (#[trigger] read@[i]) is Ok,
        r matches Ok(list) ==> list@.len() == read@.len() && forall|i: int|
            0 <= i < read@.len() ==> (#[trigger] read@[i]) == Ok::<Ipv4Cidr, CidrError>(list@[i]),
        r matches Err(e) ==> (e matches DenyListError::Entry(index, error) && index < read@.len()
            && read@[index as int] == Err::<Ipv4Cidr, CidrError>(error) && forall|i: int|
            0 <= i < index ==> (#[trigger] read@[i]) is Ok),
{
    match r {
        Ok(list) => {
            assert forall|i: int| 0 <= i < read@.len() implies (#[trigger] read@[i]) == Ok::<
                Ipv4Cidr,
                CidrError,
            >(list@[i]) by {
                assert(read[i] == Ok::<Ipv4Cidr, CidrError>(list[i]));
            }
        },
        Err(DenyListError::Entry(index, _)) => {
            assert(read[index as int] is Err);
            assert(forall|i: int| 0 <= i < index ==> (#[trigger] read[i]) is Ok);
        },
        _ => {},
    }
}

/// Decoding the texts of a reply is collecting what each of them is read as.
pub proof fn law_texts_are_read_one_by_one(
    texts: Vec<String>,
    r: Result<Vec<Ipv4Cidr>, DenyListError>,
    i: int,
    text: &str,
    read: Result<Ipv4Cidr, CidrError>,
)
    requires
        call_ensures(crate::deny_client::decode_deny_list, (&texts,), r),
        0 <= i < texts@.len(),
        text@ == texts@[i]@,
        call_ensures(Ipv4Cidr::from_str, (text,), read),
    ensures
        r matches Ok(list) ==> list@.len() == texts@.len() && (read matches Ok(network)
            && network.first() == list@[i].first() && network.length() == list@[i].length()),
        r matches Err(e) ==> (e matches DenyListError::Entry(index, error) && index < texts@.len()
            && (i < index ==> read is Ok) && (i == index ==> read == Err::<Ipv4Cidr, CidrError>(
            error,
        ))),
{
    assert(crate::network::parsed_network(texts[i]@) == crate::network::parsed_network(text@));
}

/// Each row of a query becomes the network of its single address, in order.
pub proof fn law_rows_become_hosts(rows: Vec<u32>, r: Vec<Ipv4Cidr>)
    requires
        call_ensures(crate::deny_client::host_networks, (&rows,), r),
    ensures
        r@.len() == rows@.len(),
        forall|i: int|
            0 <= i < rows@.len() ==> (#[trigger] r@[i]).first() == rows@[i] && r@[i].length() == 32,
{
    assert forall|i: int| 0 <= i < rows@.len() implies (#[trigger] r@[i]).first() == rows@[i]
        && r@[i].length() == 32 by {
        assert(r[i].first() == rows[i]);
    }
}

/// A service hands on what its client answers.
pub proof fn law_service_asks_its_client<T: DenyListClient>(
    client: T,
    service: DenyListService<T>,
    r: Result<Vec<Ipv4Cidr>, DenyListError>,
)
    requires
        call_ensures(DenyListService::<T>::new, (client,), service),
        call_ensures(DenyListService::<T>::get_deny_list, (&service,), r),
    ensures
        call_ensures(T::get_deny_list, (&client,), r),
{
}

/// The client that denies nobody always answers, with an empty list.
pub proof fn law_no_op_client_denies_nobody(
    client: NoOpDenyListClient,
    r: Result<Vec<Ipv4Cidr>, DenyListError>,
)
    requires
        call_ensures(<NoOpDenyListClient as DenyListClient>::get_deny_list, (&client,), r),
    ensures
        r matches Ok(list) && list@.len() == 0,
{
}

/// The configured ports are protected, all of them and in order; where there is
/// none, 8009 and 8010 are.
pub proof fn law_configured_ports_are_protected(configured: Vec<u16>, r: Vec<u16>)
    requires
        call_ensures(crate::overrides::protected_ports, (&configured,), r),
    ensures
        configured@.len() > 0 ==> r@ == configured@,
        configured@.len() == 0 ==> r@ == seq![8009u16, 8010u16],
{
}

/// The allow list gets the entry of each network in turn, bits that count and
/// bytes, up to 1024 of them; it is truncated exactly if there are more.
pub proof fn law_allow_list_is_loaded(networks: Vec<Ipv4Cidr>, r: AllowListPlan)
    requires
        call_ensures(crate::overrides::push_allow_list_to_map, (&networks,), r),
    ensures
        networks@.len() <= 1024 ==> r.keys@.len() == networks@.len() && !r.truncated,
        networks@.len() > 1024 ==> r.keys@.len() == 1024 && r.truncated,
        forall|i: int|
            0 <= i < r.keys@.len() ==> (#[trigger] r.keys@[i]).prefix_len == networks@[i].length()
                && networks@[i].first() == r.keys@[i].data[0] * 0x1000000 + r.keys@[i].data[1]
                * 0x10000 + r.keys@[i].data[2] * 0x100 + r.keys@[i].data[3],
{
    assert forall|i: int| 0 <= i < r.keys@.len() implies (#[trigger] r.keys@[i]).prefix_len
        == networks@[i].length() && networks@[i].first() == r.keys@[i].data[0] * 0x1000000
        + r.keys@[i].data[1] * 0x10000 + r.keys@[i].data[2] * 0x100 + r.keys@[i].data[3] by {
        assert(r.keys[i] == networks[i].key());
        crate::network::law_octets_round_trip(networks@[i].first());
    }
}

/// Overrides hold exactly the networks of the two lists, each once, and are
/// refused exactly if some network stands in both; the refusal names the
/// positions of all such networks and of no others, in ascending order.
pub proof fn law_overrides_hold_both_lists(
    allow: Vec<Ipv4Cidr>,
    deny: Vec<Ipv4Cidr>,
    r: Result<StaticOverrides, Vec<usize>>,
    allowed: &Vec<Ipv4Cidr>,
    denied: &Vec<Ipv4Cidr>,
)
    requires
        call_ensures(StaticOverrides::resolve, (&allow, &deny), r),
        r matches Ok(overrides) ==> call_ensures(StaticOverrides::allowed, (&overrides,), allowed)
            && call_ensures(StaticOverrides::denied, (&overrides,), denied),
    ensures
        r is Err <==> exists|i: int| 0 <= i < allow@.len() && deny@.contains(#[trigger] allow@[i]),
        r is Ok ==> allowed@.to_set() == allow@.to_set() && denied@.to_set() == deny@.to_set()
            && allowed@.no_duplicates() && denied@.no_duplicates(),
        r matches Err(positions) ==> (forall|i: usize| #[trigger]
            positions@.contains(i) <==> i < allow@.len() && deny@.contains(allow@[i as int])) && (
        forall|j: int, k: int|
            0 <= j < k < positions@.len() ==> positions@[j] < positions@[k]),
{
    match r {
        Ok(_) => {
            if exists|i: int| 0 <= i < allow@.len() && deny@.contains(#[trigger] allow@[i]) {
                let i = choose|i: int|
                    0 <= i < allow@.len() && deny@.contains(#[trigger] allow@[i]);
                assert(!deny@.contains(allow[i]));
            }
        },
        Err(positions) => {
            let i = choose|i: int| 0 <= i < allow.len() && deny@.contains(#[trigger] allow[i]);
            assert(deny@.contains(allow@[i]));
            crate::guarantees::law_overlaps_are_exact(allow@, deny@, positions@);
        },
    }
}

/// An updater for overrides made of two lists says of an address that it is
/// always allowed exactly if some network of the first covers it, and that it is
/// always denied exactly if some network of the second does.
pub proof fn law_updater_knows_the_overrides<T: DenyListClient>(
    allow: Vec<Ipv4Cidr>,
    deny: Vec<Ipv4Cidr>,
    overrides: StaticOverrides,
    service: Arc<DenyListService<T>>,
    updater: DenyListStateUpdater<T>,
    address: u32,
    allowed: bool,
    denied: bool,
    asked: &Arc<DenyListService<T>>,
)
    requires
        call_ensures(StaticOverrides::new, (&allow, &deny), overrides),
        call_ensures(DenyListStateUpdater::<T>::new, (service, &overrides), updater),
        call_ensures(
            DenyListStateUpdater::<T>::is_statically_allowed,
            (&updater, &address),
            allowed,
        ),
        call_ensures(DenyListStateUpdater::<T>::is_statically_denied, (&updater, &address), denied),
        call_ensures(DenyListStateUpdater::<T>::deny_service, (&updater,), asked),
    ensures
        allowed <==> exists|i: int|
            0 <= i < allow@.len() && (#[trigger] allow@[i]).first() <= address < allow@[i].first()
                + vstd::arithmetic::power2::pow2((32 - allow@[i].length()) as nat),
        denied <==> exists|i: int|
            0 <= i < deny@.len() && (#[trigger] deny@[i]).first() <= address < deny@[i].first()
                + vstd::arithmetic::power2::pow2((32 - deny@[i].length()) as nat),
        updater.deny_networks().to_set() == deny@.to_set(),
        updater.allow_set().contains(address) == allowed,
        updater.deny_set().contains(address) == denied,
        **asked == *service,
{
    crate::guarantees::law_union_holds_every_network(allow@, address);
    crate::guarantees::law_union_holds_every_network(deny@, address);
    lemma_same_networks(overrides.allow_list(), allow@, address);
    lemma_same_networks(overrides.deny_list(), deny@, address);
}

/// Lists of the same networks cover the same addresses.
proof fn lemma_same_networks(a: Seq<Ipv4Cidr>, b: Seq<Ipv4Cidr>, address: u32)
    requires
        a.to_set() == b.to_set(),
    ensures
        crate::ranges::union_of(a).contains(address) <==> crate::ranges::union_of(b).contains(
            address,
        ),
{
    if crate::ranges::union_of(a).contains(address) {
        let i = choose|i: int| 0 <= i < a.len() && (#[trigger] a[i]).covers(address);
        assert(a.to_set().contains(a[i]));
        assert(b.contains(a[i]));
        let k = choose|k: int| 0 <= k < b.len() && b[k] == a[i];
        assert(b[k].covers(address));
    }
    if crate::ranges::union_of(b).contains(address) {
        let i = choose|i: int| 0 <= i < b.len() && (#[trigger] b[i]).covers(address);
        assert(b.to_set().contains(b[i]));
        assert(a.contains(b[i]));
        let k = choose|k: int| 0 <= k < a.len() && a[k] == b[i];
        assert(a[k].covers(address));
    }
}

/// The ranges of a list of networks cover exactly the addresses of its networks.
pub proof fn law_ranges_cover_every_network(
    networks: Vec<Ipv4Cidr>,
    r: rangemap::RangeInclusiveSet<u32>,
    address: u32,
)
    requires
        call_ensures(crate::ranges::ranges_of, (&networks,), r),
    ensures
        crate::ranges::covered(r).contains(address) <==> exists|i: int|
            0 <= i < networks@.len() && (#[trigger] networks@[i]).first() <= address
                < networks@[i].first() + vstd::arithmetic::power2::pow2(
                (32 - networks@[i].length()) as nat,
            ),
{
    crate::guarantees::law_union_holds_every_network(networks@, address);
}

/// Seeding starts with all addresses of the networks to come and none inserted,
/// and an insertion counts exactly if it succeeded; it takes away none of the
/// addresses still to come.
pub proof fn law_progress_counts_insertions(
    start: SeedProgress,
    progress: SeedProgress,
    ok: bool,
    noted: SeedProgress,
    count: usize,
    networks: Seq<Ipv4Cidr>,
)
    requires
        call_ensures(SeedProgress::start, (), start),
        call_ensures(SeedProgress::noted, (progress, ok), noted),
        call_ensures(SeedProgress::count, (&noted,), count),
        progress.inserted() < 523264,
    ensures
        start.inserted() == 0,
        start.remaining(networks) == crate::seeding::expanded(networks),
        noted.remaining(networks) == progress.remaining(networks),
        count == progress.inserted() + if ok {
            1int
        } else {
            0int
        },
        count == noted.inserted(),
{
}

/// What seeding does next. Below the cap it inserts the first address still to
/// come that is not always allowed and goes on behind it, and is done only if
/// there is none; at the cap it is done, cut short if addresses are still to
/// come.
pub proof fn law_seeding_decides<T: DenyListClient>(
    updater: DenyListStateUpdater<T>,
    progress: SeedProgress,
    step: SeedStep,
    k: int,
)
    requires
        call_ensures(DenyListStateUpdater::<T>::seed_static_deny, (&updater, progress), step),
    ensures
        ({
            let remaining = progress.remaining(updater.deny_networks());
            let count = progress.inserted();
            &&& count >= 523264 ==> step == SeedStep::Done(count, remaining.len() > 0)
            &&& count < 523264 && (forall|j: int|
                0 <= j < remaining.len() ==> updater.allow_set().contains(#[trigger] remaining[j]))
                ==> step == SeedStep::Done(count, false)
            &&& count < 523264 && 0 <= k < remaining.len() && !updater.allow_set().contains(
                remaining[k],
            ) && (forall|j: int|
                0 <= j < k ==> updater.allow_set().contains(#[trigger] remaining[j])) ==> (
            step matches SeedStep::Insert(address, next) && address == remaining[k]
                && next.inserted() == count && next.remaining(updater.deny_networks())
                == remaining.skip(k + 1))
        }),
{
    crate::upkeep::law_seeding_takes_the_next_address(
        updater,
        progress.remaining(updater.deny_networks()),
        progress.inserted(),
        step,
    );
}

/// What a refresh sets out to do: it checks the address of every fetched network
/// that is not always allowed, each once, and removes the entries whose address
/// is not one of these, unless it is always denied.
pub proof fn law_refresh_decides<T: DenyListClient>(
    updater: DenyListStateUpdater<T>,
    nodes: Vec<Ipv4Cidr>,
    entries: Vec<Option<u32>>,
    run: RefreshRun,
    address: u32,
)
    requires
        call_ensures(
            DenyListStateUpdater::<T>::refresh_dynamic_deny,
            (&updater, &nodes, &entries),
            run,
        ),
    ensures
        ({
            let called_for = !updater.allow_set().contains(address) && exists|i: int|
                0 <= i < nodes@.len() && (#[trigger] nodes@[i]).first() <= address
                    < nodes@[i].first() + vstd::arithmetic::power2::pow2(
                    (32 - nodes@[i].length()) as nat,
                );
            &&& run@.checks.contains(address) <==> called_for
            &&& run@.removals.contains(address) <==> entries@.contains(Some(address))
                && !called_for && !updater.deny_set().contains(address)
        }),
        forall|i: int, j: int|
            0 <= i < j < run@.checks.len() ==> run@.checks[i] != run@.checks[j],
        run@.removals == crate::refresh::stale(
            entries@,
            run@.checks.to_set(),
            updater.deny_set(),
        ),
        !run@.inserting,
{
    crate::upkeep::law_refresh_heeds_every_network(
        updater,
        nodes@,
        entries@,
        run@,
        address,
    );
}

/// A refresh asks for its removals first, then looks each address up, and inserts
/// those that were not found.
pub proof fn law_refresh_carries_on(
    removals: Vec<u32>,
    checks: Vec<u32>,
    fresh: RefreshRun,
    run: RefreshRun,
    request: RefreshRequest,
    left: usize,
    ok: bool,
    next: RefreshRun,
)
    requires
        call_ensures(RefreshRun::new, (removals, checks), fresh),
        call_ensures(RefreshRun::request, (&run,), request),
        call_ensures(RefreshRun::removals_left, (&run,), left),
        call_ensures(RefreshRun::answer, (run, ok), next),
    ensures
        fresh@.removals == removals@ && fresh@.checks == checks@ && !fresh@.inserting,
        left == run@.removals.len(),
        request == if run@.removals.len() > 0 {
            RefreshRequest::Remove(run@.removals[0])
        } else if run@.checks.len() == 0 {
            RefreshRequest::Done
        } else if run@.inserting {
            RefreshRequest::Insert(run@.checks[0])
        } else {
            RefreshRequest::Lookup(run@.checks[0])
        },
        request is Remove ==> next@ == (RefreshView { removals: run@.removals.skip(1), ..run@ }),
        request is Lookup && ok ==> next@ == (RefreshView { checks: run@.checks.skip(1), ..run@ }),
        request is Lookup && !ok ==> next@ == (RefreshView { inserting: true, ..run@ }),
        request is Insert ==> next@ == (RefreshView {
            checks: run@.checks.skip(1),
            inserting: false,
            ..run@
        }),
        request is Done ==> next@ == run@,
{
}

/// What an updater does next. Bound, it seeds or reports on seeding, whatever the
/// networks; after the report and after each pause of ten seconds it reads the
/// exit flag; it stops only if binding failed or the flag is set, and fetches
/// otherwise; and whatever error a fetch meets, it pauses.
pub proof fn law_updater_runs_until_exit<T: DenyListClient>(
    updater: DenyListStateUpdater<T>,
    state: RunState,
    event: RunEvent,
    next: RunState,
    action: RunAction,
)
    requires
        call_ensures(DenyListStateUpdater::<T>::run, (&updater, state, event), next),
        call_ensures(RunState::action, (&next,), action),
    ensures
        state == RunState::Bind && event == RunEvent::Completed(true) ==> (next is Seed
            || next is SeedReport) && (action is Insert || action is ReportSeed),
        state is Seed && event is Completed ==> next is Seed || next is SeedReport,
        state is SeedReport && event is Completed ==> action == RunAction::CheckExit,
        state == RunState::Sleep && event is Completed ==> action == RunAction::CheckExit,
        state == RunState::CheckExit && event == RunEvent::Exit(false) ==> action
            == RunAction::Fetch,
        action == RunAction::Stop <==> state == RunState::Stop || (state == RunState::Bind && event
            == RunEvent::Completed(false)) || (state == RunState::CheckExit && event
            == RunEvent::Exit(true)),
        state == RunState::Fetch && (event matches RunEvent::Fetched(answer) && answer is Err)
            ==> action == RunAction::Sleep(10),
        state == RunState::Fetch ==> (event matches RunEvent::Fetched(Ok(nodes)) ==> next
            == RunState::List(nodes) && action == RunAction::ListEntries),
        state is List && event is Entries ==> next is Refresh || action == RunAction::Sleep(10),
        state is Refresh && event is Completed ==> next is Refresh || action == RunAction::Sleep(
            10,
        ),
{
}

/// The steps of an updater are those that its laws speak of.
pub proof fn law_updater_steps<T: DenyListClient>(
    updater: DenyListStateUpdater<T>,
    state: RunState,
    event: RunEvent,
    next: RunState,
    action: RunAction,
)
    requires
        call_ensures(DenyListStateUpdater::<T>::run, (&updater, state, event), next),
        call_ensures(RunState::action, (&state,), action),
    ensures
        updater.steps(state, event, next),
        action == state.asks(),
{
}

/// The end of a task is logged if it failed: as an error where it panicked, and
/// as a warning where it was cancelled, with its name and the description.
pub proof fn law_failed_tasks_are_logged(
    name: &str,
    result: Result<(), TaskFailure>,
    r: Option<LogLine>,
)
    requires
        call_ensures(crate::tasks::log_task_join, (name, result), r),
    ensures
        r is Some <==> result is Err,
        result matches Err(failure) ==> failure.panicked ==> (r matches Some(line) && line.level
            == LogLevel::Error && line.text@ == "task '"@ + name@ + "' panicked: "@
            + failure.message@),
        result matches Err(failure) ==> !failure.panicked ==> (r matches Some(line) && line.level
            == LogLevel::Warn && line.text@ == "task '"@ + name@ + "' was cancelled: "@
            + failure.message@),
{
}

} // verus!
