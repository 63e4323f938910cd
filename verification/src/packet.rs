//! Reading the headers of a raw Ethernet frame.
use network_types::eth::{EthHdr, EtherType};
use network_types::ip::{IpProto, Ipv4Hdr};
use network_types::udp::UdpHdr;
use vstd::prelude::*;

verus! {

/// Reads `network_types::eth::EthHdr::LEN`, the size of an Ethernet header.
#[verifier::external_body]
fn eth_hdr_len() -> (r: usize)
    ensures
        r == 14,
{
    EthHdr::LEN
}

/// Reads `network_types::ip::Ipv4Hdr::LEN`, the size of an IPv4 header without
/// options.
#[verifier::external_body]
fn ipv4_hdr_len() -> (r: usize)
    ensures
        r == 20,
{
    Ipv4Hdr::LEN
}

/// Reads `network_types::udp::UdpHdr::LEN`, the size of a UDP header.
#[verifier::external_body]
fn udp_hdr_len() -> (r: usize)
    ensures
        r == 8,
{
    UdpHdr::LEN
}

/// The two bytes of `network_types::eth::EtherType::Ipv4` as they stand in a
/// frame.
#[verifier::external_body]
fn ether_type_ipv4() -> (r: [u8; 2])
    ensures
        r[0] == 0x08 && r[1] == 0x00,
{
    u16::from(EtherType::Ipv4).to_ne_bytes()
}

/// The two bytes of `network_types::eth::EtherType::Ipv6` as they stand in a
/// frame.
#[verifier::external_body]
fn ether_type_ipv6() -> (r: [u8; 2])
    ensures
        r[0] == 0x86 && r[1] == 0xDD,
{
    u16::from(EtherType::Ipv6).to_ne_bytes()
}

/// The number of `network_types::ip::IpProto::Udp` in an IPv4 header.
#[verifier::external_body]
fn ip_proto_udp() -> (r: u8)
    ensures
        r == 17,
{
    IpProto::Udp as u8
}

/// Where an item of `len` bytes stands that is `offset` bytes into the data
/// between `start` and `end`; an error where the data ends before the item.
pub fn ptr_at(start: usize, end: usize, offset: usize, len: usize) -> (r: Result<usize, ()>)
    requires
        start + offset + len <= usize::MAX,
    ensures
        r == if start + offset + len > end {
            Err::<usize, ()>(())
        } else {
            Ok((start + offset) as usize)
        },
{
    if start + offset + len > end {
        return Err(());
    }
    Ok(start + offset)
}

/// What the headers of a frame say.
#[derive(Clone, Copy, Debug, PartialEq, Eq)]
pub enum Headers {
    /// The frame ends inside a header that has to be read.
    Truncated,
    /// The frame carries no UDP over IPv4.
    Other,
    /// UDP over IPv4: the source address in network byte order, and the
    /// destination port.
    Udp { src_bytes: [u8; 4], dest_port: u16 },
}

/// What the headers of a frame say: an Ethernet header of 14 bytes with the
/// type in its last two, an IPv4 header of 20 bytes with the protocol in its
/// tenth and the source address in its thirteenth to sixteenth byte, and a UDP
/// header of 8 bytes with the destination port in its third and fourth. A
/// frame that ends before a header counts as truncated only where the headers
/// before it say that it should follow.
pub open spec fn headers_of(data: Seq<u8>) -> Headers {
    if data.len() < 14 {
        Headers::Truncated
    } else if !(data[12] == 0x08 && data[13] == 0x00) {
        Headers::Other
    } else if data.len() < 34 {
        Headers::Truncated
    } else if data[23] != 17 {
        Headers::Other
    } else if data.len() < 42 {
        Headers::Truncated
    } else {
        Headers::Udp {
            src_bytes: [data[26], data[27], data[28], data[29]],
            dest_port: (data[36] * 0x100 + data[37]) as u16,
        }
    }
}

/// Reads the headers of a frame.
pub fn read_headers(data: &[u8]) -> (r: Headers)
    ensures
        r == headers_of(data@),
{
    let eth_len = eth_hdr_len();
    let ipv4_len = ipv4_hdr_len();
    let eth: usize = match ptr_at(0, data.len(), 0, eth_len) {
        Ok(at) => at,
        Err(()) => {
            return Headers::Truncated;
        },
    };
    let ipv6 = ether_type_ipv6();
    if data[eth + 12] == ipv6[0] && data[eth + 13] == ipv6[1] {
        return Headers::Other;
    }
    let ipv4 = ether_type_ipv4();
    if data[eth + 12] != ipv4[0] || data[eth + 13] != ipv4[1] {
        return Headers::Other;
    }
    let ip: usize = match ptr_at(0, data.len(), eth_len, ipv4_len) {
        Ok(at) => at,
        Err(()) => {
            return Headers::Truncated;
        },
    };
    if data[ip + 9] != ip_proto_udp() {
        return Headers::Other;
    }
    let src_bytes = [data[ip + 12], data[ip + 13], data[ip + 14], data[ip + 15]];
    let udp: usize = match ptr_at(0, data.len(), eth_len + ipv4_len, udp_hdr_len()) {
        Ok(at) => at,
        Err(()) => {
            return Headers::Truncated;
        },
    };
    let dest_port: u16 = data[udp + 2] as u16 * 0x100 + data[udp + 3] as u16;
    Headers::Udp { src_bytes, dest_port }
}

} // verus!
