//! IPv4 networks in CIDR notation, and the two byte orders in which the
//! firewall's tables hold addresses.
use std::ops::RangeInclusive;
use vstd::prelude::*;

verus! {

/// Why a pair of address and length, or a text, is not a network.
#[derive(Clone, Copy, Debug, PartialEq, Eq, Structural)]
pub enum CidrError {
    /// A bit of the address beyond the network length is set.
    InvalidHostPart,
    /// The part before the slash is not an IPv4 address.
    Address,
    /// The part after the slash is not a number.
    NetworkLength,
    /// The network length exceeds 32.
    NetworkLengthTooLong,
}

impl CidrError {
    /// The text that describes the error.
    pub open spec fn describes(self) -> Seq<char> {
        match self {
            CidrError::InvalidHostPart => "host part of address was not zero"@,
            CidrError::Address => "couldn't parse address in network"@,
            CidrError::NetworkLength => "couldn't parse length in network"@,
            CidrError::NetworkLengthTooLong => "invalid length for network"@,
        }
    }

    /// The text that describes the error.
    pub fn message(&self) -> (r: &'static str)
        ensures
            r@ == self.describes(),
    {
        match *self {
            CidrError::InvalidHostPart => "host part of address was not zero",
            CidrError::Address => "couldn't parse address in network",
            CidrError::NetworkLength => "couldn't parse length in network",
            CidrError::NetworkLengthTooLong => "invalid length for network",
        }
    }
}

/// An IPv4 network: its first address, in host byte order, and the number of
/// leading bits that its addresses share.
#[derive(Clone, Copy, Debug, PartialEq, Eq, Structural)]
pub struct Ipv4Cidr {
    address: u32,
    network_length: u8,
}

/// How many addresses a network of this length holds.
pub open spec fn block_size(network_length: u8) -> nat {
    vstd::arithmetic::power2::pow2((32 - network_length) as nat)
}

/// The length is one an IPv4 network can have, and the address is the first
/// of its network.
pub open spec fn valid_network(address: u32, network_length: u8) -> bool {
    network_length <= 32 && address as int % block_size(network_length) as int == 0
}

/// What becomes of a pair of address and length that is to be a network: a
/// length that is too long is reported before a set bit in the host part.
pub open spec fn checked_network(address: u32, network_length: u8) -> Result<(u32, u8), CidrError> {
    if network_length > 32 {
        Err(CidrError::NetworkLengthTooLong)
    } else if !valid_network(address, network_length) {
        Err(CidrError::InvalidHostPart)
    } else {
        Ok((address, network_length))
    }
}

/// What `cidr::Ipv4Cidr` reads from a text: first address and length.
pub uninterp spec fn parsed_network(text: Seq<char>) -> Result<(u32, u8), CidrError>;

/// Calls `cidr::Ipv4Cidr::new`. It accepts exactly the pairs whose length is
/// at most 32 and whose address has no bit set beyond that length, and keeps
/// both.
#[verifier::external_body]
fn cidr_new(address: u32, network_length: u8) -> (r: Result<(u32, u8), CidrError>)
    ensures
        r == checked_network(address, network_length),
{
    match ::cidr::Ipv4Cidr::new(address.into(), network_length) {
        Ok(c) => Ok((c.first_address().into(), c.network_length())),
        Err(::cidr::errors::NetworkParseError::InvalidHostPart) => Err(CidrError::InvalidHostPart),
        Err(::cidr::errors::NetworkParseError::AddrParseError(_)) => Err(CidrError::Address),
        Err(::cidr::errors::NetworkParseError::NetworkLengthParseError(_)) => Err(
            CidrError::NetworkLength,
        ),
        Err(::cidr::errors::NetworkParseError::NetworkLengthTooLongError(_)) => Err(
            CidrError::NetworkLengthTooLong,
        ),
    }
}

/// Calls `cidr::Ipv4Cidr::from_str`. Its result depends on the text alone;
/// what it accepts is a valid network, and a text without a slash names a
/// single host. Which texts it accepts is not stated.
#[verifier::external_body]
fn cidr_from_str(text: &str) -> (r: Result<(u32, u8), CidrError>)
    ensures
        r == parsed_network(text@),
        r matches Ok(pair) ==> valid_network(pair.0, pair.1),
        r matches Ok(pair) ==> !text@.contains('/') ==> pair.1 == 32,
{
    match text.parse::<::cidr::Ipv4Cidr>() {
        Ok(c) => Ok((c.first_address().into(), c.network_length())),
        Err(::cidr::errors::NetworkParseError::InvalidHostPart) => Err(CidrError::InvalidHostPart),
        Err(::cidr::errors::NetworkParseError::AddrParseError(_)) => Err(CidrError::Address),
        Err(::cidr::errors::NetworkParseError::NetworkLengthParseError(_)) => Err(
            CidrError::NetworkLength,
        ),
        Err(::cidr::errors::NetworkParseError::NetworkLengthTooLongError(_)) => Err(
            CidrError::NetworkLengthTooLong,
        ),
    }
}

/// Calls `cidr::Ipv4Cidr::first_address`. A network is stored by its first
/// address, so that address comes back.
#[verifier::external_body]
fn cidr_first_address(address: u32, network_length: u8) -> (r: u32)
    requires
        valid_network(address, network_length),
    ensures
        r == address,
{
    ::cidr::Ipv4Cidr::new(address.into(), network_length).unwrap().first_address().into()
}

/// Calls `cidr::Ipv4Cidr::last_address`. It sets every bit beyond the network
/// length, which counts on from the first address to the end of the block.
#[verifier::external_body]
fn cidr_last_address(address: u32, network_length: u8) -> (r: u32)
    requires
        valid_network(address, network_length),
    ensures
        r == address + block_size(network_length) - 1,
{
    ::cidr::Ipv4Cidr::new(address.into(), network_length).unwrap().last_address().into()
}

impl Ipv4Cidr {
    /// The first address of the network.
    pub closed spec fn first(self) -> u32 {
        self.address
    }

    /// The network length.
    pub closed spec fn length(self) -> u8 {
        self.network_length
    }

    /// The last address of the network.
    pub open spec fn last(self) -> int {
        self.first() + block_size(self.length()) - 1
    }

    /// The address lies in the network.
    pub open spec fn covers(self, address: u32) -> bool {
        self.first() <= address <= self.last()
    }

    /// The length is at most 32 and the address is the network's first.
    pub open spec fn wf(self) -> bool {
        valid_network(self.first(), self.length())
    }

    #[verifier::type_invariant]
    spec fn inv(self) -> bool {
        self.wf()
    }

    /// The network with this first address and length.
    pub fn new(address: u32, network_length: u8) -> (r: Result<Ipv4Cidr, CidrError>)
        ensures
            r matches Ok(c) ==> c.wf() && checked_network(address, network_length) == Ok::<
                (u32, u8),
                CidrError,
            >((c.first(), c.length())),
            r matches Err(e) ==> checked_network(address, network_length) == Err::<
                (u32, u8),
                CidrError,
            >(e),
    {
        match cidr_new(address, network_length) {
            Ok((first, length)) => Ok(Ipv4Cidr { address: first, network_length: length }),
            Err(e) => Err(e),
        }
    }

    /// The network that a text in CIDR notation, or a bare address, stands for.
    pub fn from_str(text: &str) -> (r: Result<Ipv4Cidr, CidrError>)
        ensures
            r matches Ok(c) ==> c.wf() && parsed_network(text@) == Ok::<(u32, u8), CidrError>(
                (c.first(), c.length()),
            ),
            r matches Err(e) ==> parsed_network(text@) == Err::<(u32, u8), CidrError>(e),
            r matches Ok(c) ==> !text@.contains('/') ==> c.length() == 32,
    {
        match cidr_from_str(text) {
            Ok((first, length)) => Ok(Ipv4Cidr { address: first, network_length: length }),
            Err(e) => Err(e),
        }
    }

    /// The first address, in host byte order.
    pub fn first_address(&self) -> (r: u32)
        ensures
            r == self.first(),
            self.wf(),
    {
        proof {
            use_type_invariant(self);
        }
        cidr_first_address(self.address, self.network_length)
    }

    /// The last address, in host byte order.
    pub fn last_address(&self) -> (r: u32)
        ensures
            r == self.last(),
            self.wf(),
    {
        proof {
            use_type_invariant(self);
        }
        cidr_last_address(self.address, self.network_length)
    }

    /// The number of leading bits that the addresses share.
    pub fn network_length(&self) -> (r: u8)
        ensures
            r == self.length(),
            self.wf(),
    {
        proof {
            use_type_invariant(self);
        }
        self.network_length
    }
}

/// Each of them is a network.
pub open spec fn all_wf(networks: Seq<Ipv4Cidr>) -> bool {
    forall|i: int| 0 <= i < networks.len() ==> (#[trigger] networks[i]).wf()
}

/// A number that no two networks share.
pub open spec fn network_id(network: Ipv4Cidr) -> int {
    network.first() * 64 + network.length()
}

/// A number that no two networks share.
pub(crate) fn id_of(network: &Ipv4Cidr) -> (r: u64)
    ensures
        r == network_id(*network),
        network.wf(),
{
    network.first_address() as u64 * 64 + network.network_length() as u64
}

/// Two networks with the same number are the same network.
pub proof fn law_network_id(a: Ipv4Cidr, b: Ipv4Cidr)
    requires
        a.wf(),
        b.wf(),
    ensures
        network_id(a) == network_id(b) <==> a == b,
{
}

/// The addresses of a network as an inclusive range of host-order integers.
pub fn to_range(ip: Ipv4Cidr) -> (r: RangeInclusive<u32>)
    ensures
        r@.start == ip.first(),
        r@.end == ip.last(),
        !r@.exhausted,
        ip.wf(),
        r@.start <= r@.end,
{
    let start_addr: u32 = ip.first_address();
    let end_addr: u32 = ip.last_address();
    proof {
        vstd::arithmetic::power2::lemma_pow2_pos((32 - ip.length()) as nat);
    }
    RangeInclusive::new(start_addr, end_addr)
}

/// The integer, in host byte order, of an address whose bytes stand in network
/// byte order: `1.2.3.4` is `0x01020304`.
pub open spec fn address_of(octets: [u8; 4]) -> u32 {
    (octets[0] * 0x1000000 + octets[1] * 0x10000 + octets[2] * 0x100 + octets[3]) as u32
}

/// The bytes, in network byte order, of an address in host byte order.
pub open spec fn octets_of(address: u32) -> [u8; 4] {
    [
        (address / 0x1000000) as u8,
        (address / 0x10000 % 0x100) as u8,
        (address / 0x100 % 0x100) as u8,
        (address % 0x100) as u8,
    ]
}

/// The host-order integer of an address given in network byte order.
pub fn address_from_octets(octets: [u8; 4]) -> (r: u32)
    ensures
        r == address_of(octets),
{
    octets[0] as u32 * 0x1000000 + octets[1] as u32 * 0x10000 + octets[2] as u32 * 0x100
        + octets[3] as u32
}

/// The bytes, in network byte order, of an address in host byte order.
pub fn octets(address: u32) -> (r: [u8; 4])
    ensures
        r == octets_of(address),
{
    [
        (address / 0x1000000) as u8,
        (address / 0x10000 % 0x100) as u8,
        (address / 0x100 % 0x100) as u8,
        (address % 0x100) as u8,
    ]
}

/// A key of a longest-prefix-match table: the bytes of an address in network
/// byte order, and how many of their leading bits count.
#[derive(Clone, Copy, Debug, PartialEq, Eq)]
pub struct LpmKey {
    pub prefix_len: u32,
    pub data: [u8; 4],
}

/// The bit at a position of an address, counted from the most significant bit
/// of the first byte.
pub open spec fn octet_bit(octets: [u8; 4], position: int) -> bool {
    (octets[position / 8] >> ((7 - position % 8) as u8)) & 1 == 1
}

/// An entry of a longest-prefix-match table matches an address: the bits that
/// count agree, most significant bit of the first byte first.
pub open spec fn lpm_matches(entry: LpmKey, octets: [u8; 4]) -> bool {
    forall|position: int|
        0 <= position < entry.prefix_len ==> #[trigger] octet_bit(entry.data, position)
            == octet_bit(octets, position)
}

impl Ipv4Cidr {
    /// The key under which a longest-prefix-match table holds the network.
    pub open spec fn key(self) -> LpmKey {
        LpmKey { prefix_len: self.length() as u32, data: octets_of(self.first()) }
    }

    /// The key under which a longest-prefix-match table holds the network.
    pub fn lpm_key(&self) -> (r: LpmKey)
        ensures
            r == self.key(),
    {
        LpmKey { prefix_len: self.network_length() as u32, data: octets(self.first_address()) }
    }
}

/// An address survives the way from host to network byte order and back.
pub proof fn law_octets_round_trip(address: u32)
    ensures
        address_of(octets_of(address)) == address,
{
}

/// The bytes of an address survive the way from network to host byte order
/// and back.
pub proof fn law_address_round_trip(octets: [u8; 4])
    ensures
        octets_of(address_of(octets)) == octets,
{
    lemma_bytes_of_word(octets[0], octets[1], octets[2], octets[3], address_of(octets));
    assert(octets_of(address_of(octets))@ =~= octets@);
}

proof fn lemma_bytes_of_word(b0: u8, b1: u8, b2: u8, b3: u8, x: u32)
    by (bit_vector)
    requires
        x == b0 * 0x1000000 + b1 * 0x10000 + b2 * 0x100 + b3,
    ensures
        x / 0x1000000 == b0,
        x / 0x10000 % 0x100 == b1,
        x / 0x100 % 0x100 == b2,
        x % 0x100 == b3,
{
}

proof fn lemma_bit_of_word(b0: u8, b1: u8, b2: u8, b3: u8, x: u32, i: u32)
    by (bit_vector)
    requires
        x == b0 * 0x1000000 + b1 * 0x10000 + b2 * 0x100 + b3,
        i < 32,
    ensures
        ((x >> ((31 - i) as u32)) & 1 == 1) == (if i < 8 {
            (b0 >> ((7 - i % 8) as u8)) & 1 == 1
        } else if i < 16 {
            (b1 >> ((7 - i % 8) as u8)) & 1 == 1
        } else if i < 24 {
            (b2 >> ((7 - i % 8) as u8)) & 1 == 1
        } else {
            (b3 >> ((7 - i % 8) as u8)) & 1 == 1
        }),
{
}

/// A bit of the bytes is the bit of the integer with the same weight.
proof fn lemma_octet_bit(octets: [u8; 4], position: int)
    requires
        0 <= position < 32,
    ensures
        octet_bit(octets, position) == (address_of(octets) as int
            / vstd::arithmetic::power2::pow2((31 - position) as nat) as int % 2 == 1),
{
    let x = address_of(octets);
    let i = position as u32;
    let shift = (31 - i) as u32;
    lemma_bit_of_word(octets[0], octets[1], octets[2], octets[3], x, i);
    vstd::bits::lemma_u32_shr_is_div(x, shift);
    let y = x >> shift;
    assert(y & 1 == y % 2) by (bit_vector);
}

/// Two addresses agree in their first bits exactly if they lie in the same
/// block of the size that the other bits leave.
pub(crate) proof fn lemma_shared_prefix(a: [u8; 4], b: [u8; 4], length: nat)
    requires
        length <= 32,
    ensures
        (forall|position: int|
            0 <= position < length ==> #[trigger] octet_bit(a, position) == octet_bit(b, position))
            <==> address_of(a) as int / vstd::arithmetic::power2::pow2((32 - length) as nat) as int
            == address_of(b) as int / vstd::arithmetic::power2::pow2((32 - length) as nat) as int,
    decreases length,
{
    let x = address_of(a) as int;
    let y = address_of(b) as int;
    if length == 0 {
        vstd::arithmetic::power2::lemma2_to64();
        assert(vstd::arithmetic::power2::pow2(32) == 0x100000000);
        assert(x / 0x100000000 == 0 && y / 0x100000000 == 0);
    } else {
        let last = length - 1;
        let w = vstd::arithmetic::power2::pow2((32 - length) as nat) as int;
        let w2 = vstd::arithmetic::power2::pow2((32 - last) as nat) as int;
        lemma_shared_prefix(a, b, last as nat);
        lemma_octet_bit(a, last);
        lemma_octet_bit(b, last);
        vstd::arithmetic::power2::lemma_pow2_pos((32 - length) as nat);
        vstd::arithmetic::power2::lemma_pow2_unfold((32 - last) as nat);
        assert(w2 == w * 2);
        vstd::arithmetic::div_mod::lemma_div_denominator(x, w, 2);
        vstd::arithmetic::div_mod::lemma_div_denominator(y, w, 2);
        let shorter = (forall|position: int|
            0 <= position < last ==> #[trigger] octet_bit(a, position) == octet_bit(b, position));
        let longer = (forall|position: int|
            0 <= position < length ==> #[trigger] octet_bit(a, position) == octet_bit(b, position));
        assert(longer <==> shorter && octet_bit(a, last) == octet_bit(b, last));
        assert(x / w2 == x / w / 2 && y / w2 == y / w / 2);
        assert(octet_bit(a, last) == (x / w % 2 == 1));
        assert(octet_bit(b, last) == (y / w % 2 == 1));
        assert(x / w == y / w <==> x / w / 2 == y / w / 2 && x / w % 2 == y / w % 2);
    }
}

/// A packet's source matches the entry that a network has in a
/// longest-prefix-match table exactly if its address lies in the network:
/// the entry holds the bytes in network order, the range holds integers in
/// host order, and both say the same.
pub proof fn law_lpm_entry_is_network(network: Ipv4Cidr, octets: [u8; 4])
    requires
        network.wf(),
    ensures
        lpm_matches(network.key(), octets) <==> network.covers(address_of(octets)),
{
    let b = block_size(network.length()) as int;
    let x = network.first() as int;
    let y = address_of(octets) as int;
    law_octets_round_trip(network.first());
    let data = network.key().data;
    let length = network.length() as nat;
    lemma_shared_prefix(data, octets, length);
    vstd::arithmetic::power2::lemma_pow2_pos((32 - network.length()) as nat);
    vstd::arithmetic::div_mod::lemma_fundamental_div_mod(x, b);
    vstd::arithmetic::div_mod::lemma_fundamental_div_mod(y, b);
    let agree = forall|position: int|
        0 <= position < length ==> #[trigger] octet_bit(data, position) == octet_bit(
            octets,
            position,
        );
    assert(agree <==> x / b == y / b);
    if lpm_matches(network.key(), octets) {
        assert(agree);
    }
    if x / b == y / b {
        assert(x <= y < x + b);
    }
    if x <= y < x + b {
        vstd::arithmetic::div_mod::lemma_fundamental_div_mod_converse(y, b, x / b, y - x);
    }
}

} // verus!
