//! What the firewall promises, said of the bytes of a frame, the fields of the
//! records, the bounds of the networks and the steps of the updater themselves.
use vstd::prelude::*;

use crate::datapath::{Flow, PacketRequest, PacketRun, Tables, XdpAction};
use crate::deny_client::DenyListError;
use crate::network::{CidrError, Ipv4Cidr, LpmKey};
use crate::packet::Headers;
use crate::stats::{ConnectionStats, RuntimeControls, StatType};

verus! {

/// An address lies in a network exactly if it is one of the `2^(32 - length)`
/// addresses from the first on, which are those that agree with the first in
/// the leading bits that the length counts.
pub proof fn law_network_is_prefix_block(network: Ipv4Cidr, address: u32)
    requires
        network.length() <= 32,
        network.first() as int % vstd::arithmetic::power2::pow2(
            (32 - network.length()) as nat,
        ) as int == 0,
    ensures
        network.wf(),
        network.covers(address) <==> network.first() <= address < network.first()
            + vstd::arithmetic::power2::pow2((32 - network.length()) as nat),
        network.covers(address) <==> address as int / vstd::arithmetic::power2::pow2(
            (32 - network.length()) as nat,
        ) as int == network.first() as int / vstd::arithmetic::power2::pow2(
            (32 - network.length()) as nat,
        ) as int,
{
    let b = vstd::arithmetic::power2::pow2((32 - network.length()) as nat) as int;
    let x = network.first() as int;
    let y = address as int;
    vstd::arithmetic::power2::lemma_pow2_pos((32 - network.length()) as nat);
    vstd::arithmetic::div_mod::lemma_fundamental_div_mod(x, b);
    vstd::arithmetic::div_mod::lemma_fundamental_div_mod(y, b);
    if x <= y < x + b {
        vstd::arithmetic::div_mod::lemma_fundamental_div_mod_converse(y, b, x / b, y - x);
    }
}

/// A pair of address and length is a network exactly if the length is at most
/// 32 and the address is a multiple of `2^(32 - length)`, and the network is
/// that pair; a length that is too long is told apart from a set bit beyond the
/// length.
pub proof fn law_which_pairs_are_networks(address: u32, length: u8)
    ensures
        length > 32 ==> crate::network::checked_network(address, length) == Err::<
            (u32, u8),
            CidrError,
        >(CidrError::NetworkLengthTooLong),
        length <= 32 && address as int % vstd::arithmetic::power2::pow2((32 - length) as nat) as int
            == 0 ==> crate::network::checked_network(address, length) == Ok::<(u32, u8), CidrError>(
            (address, length),
        ),
        length <= 32 && address as int % vstd::arithmetic::power2::pow2((32 - length) as nat) as int
            != 0 ==> crate::network::checked_network(address, length) == Err::<
            (u32, u8),
            CidrError,
        >(CidrError::InvalidHostPart),
{
}

/// The first byte of an address is the most significant one of its integer, in
/// both directions.
pub proof fn law_first_byte_is_most_significant(octets: [u8; 4], address: u32)
    ensures
        crate::network::address_of(octets) == octets[0] * 0x1000000 + octets[1] * 0x10000
            + octets[2] * 0x100 + octets[3],
        crate::network::octets_of(address)[0] == address / 0x1000000,
        crate::network::octets_of(address)[1] == address / 0x10000 % 0x100,
        crate::network::octets_of(address)[2] == address / 0x100 % 0x100,
        crate::network::octets_of(address)[3] == address % 0x100,
{
}

/// An entry of a longest-prefix-match table matches an address exactly if the
/// two agree, as integers, in their leading bits.
pub proof fn law_entry_matches_by_leading_bits(entry: LpmKey, octets: [u8; 4])
    requires
        entry.prefix_len <= 32,
    ensures
        crate::network::lpm_matches(entry, octets) <==> (entry.data[0] * 0x1000000 + entry.data[1]
            * 0x10000 + entry.data[2] * 0x100 + entry.data[3])
            / vstd::arithmetic::power2::pow2((32 - entry.prefix_len) as nat) as int == (octets[0]
            * 0x1000000 + octets[1] * 0x10000 + octets[2] * 0x100 + octets[3])
            / vstd::arithmetic::power2::pow2((32 - entry.prefix_len) as nat) as int,
{
    crate::network::lemma_shared_prefix(entry.data, octets, entry.prefix_len as nat);
    let agree = forall|position: int|
        0 <= position < entry.prefix_len as nat ==> #[trigger] crate::network::octet_bit(
            entry.data,
            position,
        ) == crate::network::octet_bit(octets, position);
    if crate::network::lpm_matches(entry, octets) {
        assert(agree);
    }
    if agree {
        assert(crate::network::lpm_matches(entry, octets));
    }
}

/// The entry of a network counts as many bits as the network's length and holds
/// the bytes of its first address, most significant byte first.
pub proof fn law_key_holds_network(network: Ipv4Cidr)
    ensures
        network.key().prefix_len == network.length(),
        network.key().data[0] == network.first() / 0x1000000,
        network.key().data[1] == network.first() / 0x10000 % 0x100,
        network.key().data[2] == network.first() / 0x100 % 0x100,
        network.key().data[3] == network.first() % 0x100,
{
}

/// The union of networks holds the addresses of every one of them and no
/// others.
pub proof fn law_union_holds_every_network(networks: Seq<Ipv4Cidr>, address: u32)
    ensures
        crate::ranges::union_of(networks).contains(address) <==> exists|i: int|
            0 <= i < networks.len() && (#[trigger] networks[i]).first() <= address
                < networks[i].first() + vstd::arithmetic::power2::pow2(
                (32 - networks[i].length()) as nat,
            ),
{
    if crate::ranges::union_of(networks).contains(address) {
        let i = choose|i: int| 0 <= i < networks.len() && (#[trigger] networks[i]).covers(address);
        assert(networks[i].first() <= address);
    }
    if exists|i: int|
        0 <= i < networks.len() && (#[trigger] networks[i]).first() <= address < networks[i].first()
            + vstd::arithmetic::power2::pow2((32 - networks[i].length()) as nat) {
        let i = choose|i: int|
            0 <= i < networks.len() && (#[trigger] networks[i]).first() <= address
                < networks[i].first() + vstd::arithmetic::power2::pow2(
                (32 - networks[i].length()) as nat,
            );
        assert(networks[i].covers(address));
    }
}

/// A frame of at least 42 bytes, however long, that says UDP over IPv4 is read
/// as such, with the source and the destination port that its bytes give.
pub proof fn law_udp_is_recognised(data: Seq<u8>)
    requires
        data.len() >= 42,
        data[12] == 0x08,
        data[13] == 0x00,
        data[23] == 17,
    ensures
        crate::packet::headers_of(data) matches Headers::Udp { src_bytes, dest_port }
            && src_bytes[0] == data[26] && src_bytes[1] == data[27] && src_bytes[2] == data[28]
            && src_bytes[3] == data[29] && dest_port == data[36] * 0x100 + data[37],
{
}

/// A frame that ends inside a header that has to be read is truncated; one that
/// says anything else than UDP over IPv4 is something else.
pub proof fn law_other_frames_are_told_apart(data: Seq<u8>)
    ensures
        data.len() < 14 ==> crate::packet::headers_of(data) == Headers::Truncated,
        data.len() >= 14 && (data[12] != 0x08 || data[13] != 0x00) ==> crate::packet::headers_of(
            data,
        ) == Headers::Other,
        14 <= data.len() < 34 && data[12] == 0x08 && data[13] == 0x00
            ==> crate::packet::headers_of(data) == Headers::Truncated,
        data.len() >= 34 && data[12] == 0x08 && data[13] == 0x00 && data[23] != 17
            ==> crate::packet::headers_of(data) == Headers::Other,
        34 <= data.len() < 42 && data[12] == 0x08 && data[13] == 0x00 && data[23] == 17
            ==> crate::packet::headers_of(data) == Headers::Truncated,
{
}

/// What follows the first 42 bytes of a frame has no say in what becomes of it.
pub proof fn law_payload_is_ignored(
    data: Seq<u8>,
    payload: Seq<u8>,
    cnc: Option<RuntimeControls>,
    tables: Tables,
)
    requires
        data.len() >= 42,
    ensures
        crate::packet::headers_of(data + payload) == crate::packet::headers_of(data),
        crate::datapath::admitted(cnc, data + payload) == crate::datapath::admitted(cnc, data),
        crate::datapath::outcome(cnc, data + payload, tables) == crate::datapath::outcome(
            cnc,
            data,
            tables,
        ),
{
    law_only_named_bytes_count(data, data + payload);
}

/// Two frames of at least 42 bytes that agree in the Ethernet type, the
/// protocol, the source address and the destination port are read alike.
pub proof fn law_only_named_bytes_count(a: Seq<u8>, b: Seq<u8>)
    requires
        a.len() >= 42,
        b.len() >= 42,
        a[12] == b[12] && a[13] == b[13],
        a[23] == b[23],
        a[26] == b[26] && a[27] == b[27] && a[28] == b[28] && a[29] == b[29],
        a[36] == b[36] && a[37] == b[37],
    ensures
        crate::packet::headers_of(a) == crate::packet::headers_of(b),
{
}

/// A frame fails to be processed exactly if it ends inside a header that has to
/// be read.
pub proof fn law_only_short_frames_fail(data: Seq<u8>, close_to_leader: bool)
    ensures
        crate::datapath::started(data, close_to_leader) is Err <==> data.len() < 14 || (data[12]
            == 0x08 && data[13] == 0x00 && (data.len() < 34 || (data[23] == 17 && data.len() < 42))),
        crate::datapath::started(data, close_to_leader) matches Ok(run) ==> run
            == crate::datapath::admitted(
            Some(RuntimeControls { global_enabled: true, close_to_leader }),
            data,
        ),
{
}

/// A filter that is switched off passes every frame at once and counts nothing,
/// whatever else the controls say.
pub proof fn law_filter_off_passes(controls: RuntimeControls, data: Seq<u8>, tables: Tables)
    requires
        !controls.global_enabled,
    ensures
        crate::datapath::admitted(Some(controls), data).asks() == PacketRequest::Finish(
            XdpAction::Pass,
        ),
        crate::datapath::outcome(Some(controls), data, tables) == (
            XdpAction::Pass,
            Seq::<(u32, StatType)>::empty(),
        ),
{
}

/// Whatever the controls say, a frame that is not UDP over IPv4, or is too
/// short to tell, passes at once and uncounted.
pub proof fn law_unread_frames_pass(cnc: Option<RuntimeControls>, data: Seq<u8>, tables: Tables)
    requires
        data.len() < 42 || data[12] != 0x08 || data[13] != 0x00 || data[23] != 17,
    ensures
        crate::datapath::admitted(cnc, data).asks() == PacketRequest::Finish(XdpAction::Pass),
        crate::datapath::outcome(cnc, data, tables) == (
            XdpAction::Pass,
            Seq::<(u32, StatType)>::empty(),
        ),
{
}

/// What a filter that is on, which it also is without any controls, asks for of
/// a frame with UDP over IPv4, and what it does with the answers. It looks the
/// port up, and passes the frame if that is not protected. Otherwise it counts
/// the packet for its source, and once more far from the leader slot; then it
/// looks the source up, in the deny list close to the leader slot, which it also
/// is without any controls, and in the allow list far from it. A source that
/// the deny list does not hold, or the allow list holds, passes. Any other is
/// counted as blocked and dropped. How counting went has no say in it.
pub proof fn law_filtered_frame_is_asked_about(
    cnc: Option<RuntimeControls>,
    data: Seq<u8>,
    counted: bool,
    counted_far: bool,
    counted_blocked: bool,
)
    requires
        cnc matches Some(controls) ==> controls.global_enabled,
        data.len() >= 42,
        data[12] == 0x08,
        data[13] == 0x00,
        data[23] == 17,
    ensures
        ({
            let port = (data[36] * 0x100 + data[37]) as u16;
            let source = (data[26] * 0x1000000 + data[27] * 0x10000 + data[28] * 0x100
                + data[29]) as u32;
            let near = match cnc {
                Some(controls) => controls.close_to_leader,
                None => true,
            };
            let start = crate::datapath::admitted(cnc, data);
            let protected = start.after(true);
            let deciding = if near {
                protected.after(counted)
            } else {
                protected.after(counted).after(counted_far)
            };
            let blocked = deciding.after(near);
            &&& start.asks() == PacketRequest::FindPort(port)
            &&& start.after(false).asks() == PacketRequest::Finish(XdpAction::Pass)
            &&& protected.asks() == PacketRequest::Count(source, StatType::All)
            &&& !near ==> protected.after(counted).asks() == PacketRequest::Count(
                source,
                StatType::FarFromLeader,
            )
            &&& near ==> deciding.asks() == PacketRequest::FindDenied(source)
            &&& !near ==> (deciding.asks() matches PacketRequest::FindAllowed(key)
                && key.prefix_len == 32 && key.data[0] == data[26] && key.data[1] == data[27]
                && key.data[2] == data[28] && key.data[3] == data[29])
            &&& deciding.after(!near).asks() == PacketRequest::Finish(XdpAction::Pass)
            &&& blocked.asks() == PacketRequest::Count(source, StatType::Blocked)
            &&& blocked.after(counted_blocked).asks() == PacketRequest::Finish(XdpAction::Drop)
        }),
{
}

/// Without any controls the filter is on and close to the leader slot.
pub proof fn law_without_controls_filter_is_on_and_near(data: Seq<u8>, tables: Tables)
    ensures
        crate::datapath::admitted(None, data) == crate::datapath::admitted(
            Some(RuntimeControls { global_enabled: true, close_to_leader: true }),
            data,
        ),
        crate::datapath::outcome(None, data, tables) == crate::datapath::outcome(
            Some(RuntimeControls { global_enabled: true, close_to_leader: true }),
            data,
            tables,
        ),
{
}

/// A run asks for what it is named after, of the source and the port that it
/// carries, and hands both on unchanged; only the port and the source lookup
/// heed their answer.
pub proof fn law_run_keeps_to_its_flow(flow: Flow, found: bool)
    ensures
        PacketRun::Port(flow).asks() == PacketRequest::FindPort(flow.dest_port),
        PacketRun::Port(flow).after(true) == PacketRun::CountAll(flow),
        PacketRun::Port(flow).after(false) == PacketRun::Finished(XdpAction::Pass),
        PacketRun::CountAll(flow).asks() == PacketRequest::Count(flow.source_addr, StatType::All),
        flow.close_to_leader ==> PacketRun::CountAll(flow).after(found) == PacketRun::Source(flow),
        !flow.close_to_leader ==> PacketRun::CountAll(flow).after(found) == PacketRun::CountFar(
            flow,
        ),
        PacketRun::CountFar(flow).asks() == PacketRequest::Count(
            flow.source_addr,
            StatType::FarFromLeader,
        ),
        PacketRun::CountFar(flow).after(found) == PacketRun::Source(flow),
        PacketRun::CountZeroRtt(flow).asks() == PacketRequest::Count(
            flow.source_addr,
            StatType::ZeroRtt,
        ),
        PacketRun::CountZeroRtt(flow).after(found) == PacketRun::Source(flow),
        flow.close_to_leader ==> PacketRun::Source(flow).asks() == PacketRequest::FindDenied(
            flow.source_addr,
        ),
        !flow.close_to_leader ==> PacketRun::Source(flow).asks() == PacketRequest::FindAllowed(
            LpmKey { prefix_len: 32, data: flow.src_bytes },
        ),
        PacketRun::Source(flow).after(flow.close_to_leader) == PacketRun::CountBlocked(flow),
        PacketRun::Source(flow).after(!flow.close_to_leader) == PacketRun::Finished(
            XdpAction::Pass,
        ),
        PacketRun::CountBlocked(flow).asks() == PacketRequest::Count(
            flow.source_addr,
            StatType::Blocked,
        ),
        PacketRun::CountBlocked(flow).after(found) == PacketRun::Finished(XdpAction::Drop),
{
}

/// A verdict stands, whatever is answered.
pub proof fn law_verdict_stands(run: PacketRun, action: XdpAction, found: bool)
    requires
        run.asks() == PacketRequest::Finish(action),
    ensures
        run.after(found).asks() == PacketRequest::Finish(action),
{
}

/// What becomes of a frame with UDP over IPv4 under controls that switch the
/// filter on, said of its bytes and of what the tables hold. To a port that is
/// not protected it passes uncounted. To a protected one it is dropped, close
/// to the leader slot, exactly if the deny list holds its source, and far from
/// it exactly if no entry of the allow list agrees with the source in the
/// leading bits that the entry counts.
pub proof fn law_verdict_on_bytes(controls: RuntimeControls, data: Seq<u8>, tables: Tables)
    requires
        controls.global_enabled,
        data.len() >= 42,
        data[12] == 0x08,
        data[13] == 0x00,
        data[23] == 17,
    ensures
        ({
            let port = (data[36] * 0x100 + data[37]) as u16;
            let source = (data[26] * 0x1000000 + data[27] * 0x10000 + data[28] * 0x100
                + data[29]) as u32;
            let refused = if controls.close_to_leader {
                tables.denied.contains(source)
            } else {
                forall|entry: LpmKey| #[trigger]
                    tables.allowed.contains(entry) && entry.prefix_len <= 32 ==> (entry.data[0]
                        * 0x1000000 + entry.data[1] * 0x10000 + entry.data[2] * 0x100
                        + entry.data[3]) / vstd::arithmetic::power2::pow2(
                        (32 - entry.prefix_len) as nat,
                    ) as int != source as int / vstd::arithmetic::power2::pow2(
                        (32 - entry.prefix_len) as nat,
                    ) as int
            };
            let all = (source, StatType::All);
            let far = (source, StatType::FarFromLeader);
            let blocked = (source, StatType::Blocked);
            crate::datapath::driven(crate::datapath::admitted(Some(controls), data), tables)
                == if !tables.ports.contains(port) {
                (XdpAction::Pass, Seq::empty())
            } else if controls.close_to_leader && refused {
                (XdpAction::Drop, seq![all, blocked])
            } else if controls.close_to_leader {
                (XdpAction::Pass, seq![all])
            } else if refused {
                (XdpAction::Drop, seq![all, far, blocked])
            } else {
                (XdpAction::Pass, seq![all, far])
            }
        }),
{
    crate::datapath::law_run_follows_rules(Some(controls), data, tables);
    let (action, counts) = crate::datapath::outcome(Some(controls), data, tables);
    let octets = crate::packet::headers_of(data)->src_bytes;
    let source = crate::network::address_of(octets);
    let all = (source, StatType::All);
    let far = (source, StatType::FarFromLeader);
    let blocked = (source, StatType::Blocked);
    assert forall|entry: LpmKey| #[trigger]
        tables.allowed.contains(entry) && entry.prefix_len <= 32 implies (
    crate::network::lpm_matches(entry, octets) <==> (entry.data[0] * 0x1000000 + entry.data[1]
        * 0x10000 + entry.data[2] * 0x100 + entry.data[3]) / vstd::arithmetic::power2::pow2(
        (32 - entry.prefix_len) as nat,
    ) as int == source as int / vstd::arithmetic::power2::pow2(
        (32 - entry.prefix_len) as nat,
    ) as int) by {
        law_entry_matches_by_leading_bits(entry, octets);
    }
    assert(counts =~= Seq::empty() || counts =~= seq![all] || counts =~= seq![all, blocked]
        || counts =~= seq![all, far] || counts =~= seq![all, far, blocked]);
}

/// Counting a packet adds one to the one field that its type names, and leaves
/// the other three alone; without an entry nothing is stored.
pub proof fn law_counting_adds_one_to_its_field(stats: ConnectionStats, stat_type: StatType)
    requires
        stat_type == StatType::All ==> stats.pkt_count < u64::MAX,
        stat_type == StatType::Blocked ==> stats.blocked_pkt_count < u64::MAX,
        stat_type == StatType::FarFromLeader ==> stats.far_from_leader_pkt_count < u64::MAX,
        stat_type == StatType::ZeroRtt ==> stats.zero_rtt_pkt_count < u64::MAX,
    ensures
        crate::stats::counted_entry(None, stat_type) is None,
        crate::stats::counted_entry(Some(stats), stat_type) matches Some(after) && after.pkt_count
            - stats.pkt_count == (if stat_type == StatType::All {
            1int
        } else {
            0int
        }) && after.blocked_pkt_count - stats.blocked_pkt_count == (if stat_type
            == StatType::Blocked {
            1int
        } else {
            0int
        }) && after.far_from_leader_pkt_count - stats.far_from_leader_pkt_count == (if stat_type
            == StatType::FarFromLeader {
            1int
        } else {
            0int
        }) && after.zero_rtt_pkt_count - stats.zero_rtt_pkt_count == (if stat_type
            == StatType::ZeroRtt {
            1int
        } else {
            0int
        }),
        stats.count(stat_type) == match stat_type {
            StatType::All => stats.pkt_count,
            StatType::Blocked => stats.blocked_pkt_count,
            StatType::FarFromLeader => stats.far_from_leader_pkt_count,
            StatType::ZeroRtt => stats.zero_rtt_pkt_count,
        },
{
}

/// An address gets a fresh entry exactly if it has none, and a fresh entry
/// counts nothing yet.
pub proof fn law_fresh_entry_counts_nothing()
    ensures
        crate::stats::fresh_entry(true) is None,
        crate::stats::fresh_entry(false) matches Some(stats) && stats.pkt_count == 0
            && stats.blocked_pkt_count == 0 && stats.far_from_leader_pkt_count == 0
            && stats.zero_rtt_pkt_count == 0,
{
}

/// The positions in `allow` that overlap with `deny` are those of the networks
/// that `deny` holds, all of them and no others, each once and in order.
pub proof fn law_overlaps_are_exact(
    allow: Seq<Ipv4Cidr>,
    deny: Seq<Ipv4Cidr>,
    positions: Seq<usize>,
)
    requires
        crate::overrides::overlaps(allow, deny, positions),
    ensures
        forall|i: usize| #[trigger]
            positions.contains(i) <==> i < allow.len() && deny.contains(allow[i as int]),
        forall|j: int, k: int| 0 <= j < k < positions.len() ==> positions[j] < positions[k],
{
    assert forall|i: usize| #[trigger] positions.contains(i) <==> i < allow.len() && deny.contains(
        allow[i as int],
    ) by {
        if positions.contains(i) {
            let k = choose|k: int| 0 <= k < positions.len() && positions[k] == i;
            assert(positions[k] < allow.len());
        }
    }
}

/// How an error of a deny-list source is described: by what the source said,
/// by the status as it is displayed, or by the position of the entry that is not
/// a network and the reason.
pub proof fn law_errors_say_what_went_wrong(
    text: String,
    index: usize,
    error: CidrError,
)
    ensures
        DenyListError::Unavailable(text).describes() == text@,
        DenyListError::Status(text).describes()
            == "deny-list service returned non-success status: "@ + text@,
        DenyListError::Entry(index, error).describes()
            == "failed to decode deny-list JSON: entry "@ + crate::text::decimal(index as nat)
            + ": "@ + match error {
            CidrError::InvalidHostPart => "host part of address was not zero"@,
            CidrError::Address => "couldn't parse address in network"@,
            CidrError::NetworkLength => "couldn't parse length in network"@,
            CidrError::NetworkLengthTooLong => "invalid length for network"@,
        },
{
}

/// A decimal digit is written as its character, and a number of several digits
/// as the number without its last digit followed by that digit.
pub proof fn law_decimal_notation(number: nat, digit: nat)
    requires
        digit < 10,
    ensures
        crate::text::decimal(digit).len() == 1,
        crate::text::decimal(digit)[0] as int == '0' as int + digit,
        number > 0 ==> crate::text::decimal(number * 10 + digit) == crate::text::decimal(
            number,
        ) + crate::text::decimal(digit),
{
    if number > 0 {
        assert((number * 10 + digit) / 10 == number);
        assert((number * 10 + digit) % 10 == digit);
        assert(crate::text::decimal(number * 10 + digit) =~= crate::text::decimal(number)
            + crate::text::decimal(digit));
    }
}

} // verus!
