//! Loading the statically denied addresses into the deny list, one insertion
//! at a time.
use vstd::prelude::*;

use crate::network::Ipv4Cidr;

verus! {

/// How many entries the deny list in the kernel holds.
pub const DENY_LIST_SIZE: usize = 524288;

/// How many of them are kept free for addresses that come and go.
pub const DYNAMIC_LIST_BUFFER: usize = 1024;

/// How many static addresses are loaded at most.
pub const DENY_LIST_CAP: usize = DENY_LIST_SIZE - DYNAMIC_LIST_BUFFER;

/// The addresses of a network, in ascending order.
pub open spec fn network_addresses(network: Ipv4Cidr) -> Seq<u32> {
    Seq::new(
        crate::network::block_size(network.length()),
        |k: int| (network.first() + k) as u32,
    )
}

/// The addresses of the networks, one network after the other.
pub open spec fn expanded(networks: Seq<Ipv4Cidr>) -> Seq<u32>
    decreases networks.len(),
{
    if networks.len() == 0 {
        Seq::empty()
    } else {
        network_addresses(networks[0]) + expanded(networks.skip(1))
    }
}

/// The addresses from the first one on that is not allowed.
pub open spec fn skip_allowed(addresses: Seq<u32>, allow: Set<u32>) -> Seq<u32>
    decreases addresses.len(),
{
    if addresses.len() > 0 && allow.contains(addresses[0]) {
        skip_allowed(addresses.skip(1), allow)
    } else {
        addresses
    }
}

/// What seeding does next.
pub enum SeedNext {
    /// Insert the address; those in `remaining` are still to come.
    Insert { address: u32, remaining: Seq<u32> },
    /// Nothing. It was truncated if addresses were left when the cap was
    /// reached.
    Done { truncated: bool },
}

/// What seeding does next, with these addresses still to come and this many
/// inserted: the next address that is not allowed is inserted, until none is
/// left or the cap is reached.
pub open spec fn seed_next(remaining: Seq<u32>, allow: Set<u32>, count: usize) -> SeedNext {
    if count >= DENY_LIST_CAP {
        SeedNext::Done { truncated: remaining.len() > 0 }
    } else {
        let rest = skip_allowed(remaining, allow);
        if rest.len() == 0 {
            SeedNext::Done { truncated: false }
        } else {
            SeedNext::Insert { address: rest[0], remaining: rest.skip(1) }
        }
    }
}

/// The number of insertions that have succeeded, after one more that did or
/// did not. Seeding asks for none once the cap is reached.
pub open spec fn noted_count(count: usize, ok: bool) -> usize {
    if ok && count < DENY_LIST_CAP {
        (count + 1) as usize
    } else {
        count
    }
}

/// How far seeding has come: the network and the offset in it of the next
/// address, and how many insertions have succeeded.
#[derive(Clone, Copy, Debug)]
pub struct SeedProgress {
    index: usize,
    offset: u64,
    count: usize,
}

impl SeedProgress {
    /// The addresses of the networks that are still to come.
    pub closed spec fn remaining(self, networks: Seq<Ipv4Cidr>) -> Seq<u32> {
        if self.index >= networks.len() {
            Seq::empty()
        } else {
            let addresses = network_addresses(networks[self.index as int]);
            let here = if self.offset >= addresses.len() {
                Seq::empty()
            } else {
                addresses.skip(self.offset as int)
            };
            here + expanded(networks.skip(self.index + 1))
        }
    }

    /// How many insertions have succeeded.
    pub closed spec fn inserted(self) -> usize {
        self.count
    }

    /// The beginning, with every address to come and nothing inserted.
    pub fn start() -> (r: SeedProgress)
        ensures
            r.inserted() == 0,
            forall|networks: Seq<Ipv4Cidr>| #[trigger] r.remaining(networks) == expanded(networks),
    {
        let r = SeedProgress { index: 0, offset: 0, count: 0 };
        proof {
            assert forall|networks: Seq<Ipv4Cidr>| #[trigger]
                r.remaining(networks) == expanded(networks) by {
                if networks.len() > 0 {
                    vstd::arithmetic::power2::lemma_pow2_pos((32 - networks[0].length()) as nat);
                    assert(network_addresses(networks[0]).skip(0) =~= network_addresses(networks[0]));
                }
            }
        }
        r
    }

    /// Takes note of whether the insertion asked for has succeeded.
    pub fn noted(self, ok: bool) -> (r: SeedProgress)
        ensures
            r.inserted() == noted_count(self.inserted(), ok),
            forall|networks: Seq<Ipv4Cidr>| #[trigger]
                r.remaining(networks) == self.remaining(networks),
    {
        if ok && self.count < DENY_LIST_CAP {
            SeedProgress { count: self.count + 1, ..self }
        } else {
            self
        }
    }

    /// How many insertions have succeeded.
    pub fn count(&self) -> (r: usize)
        ensures
            r == self.inserted(),
    {
        self.count
    }

    /// The next address of the networks and the progress beyond it.
    pub(crate) fn next_address(self, networks: &Vec<Ipv4Cidr>) -> (r: Option<(u32, SeedProgress)>)
        ensures
            r is None <==> self.remaining(networks@).len() == 0,
            r matches Some((address, progress)) ==> address == self.remaining(networks@)[0]
                && progress.remaining(networks@) == self.remaining(networks@).skip(1)
                && progress.inserted() == self.inserted(),
    {
        let mut index = self.index;
        let mut offset = self.offset;
        while index < networks.len()
            invariant
                (SeedProgress { index, offset, count: self.count }).remaining(networks@)
                    == self.remaining(networks@),
            decreases networks.len() - index,
        {
            let network = networks[index];
            let first: u32 = network.first_address();
            let last: u32 = network.last_address();
            let ghost addresses = network_addresses(network);
            proof {
                vstd::arithmetic::power2::lemma_pow2_pos((32 - network.length()) as nat);
                assert(addresses.len() == last - first + 1);
            }
            if offset <= (last - first) as u64 {
                let progress = SeedProgress { index, offset: offset + 1, count: self.count };
                proof {
                    let here = addresses.skip(offset as int);
                    let rest = expanded(networks@.skip(index + 1));
                    let all = here + rest;
                    assert(all == self.remaining(networks@));
                    assert(all[0] == (first + offset) as u32);
                    assert(all.skip(1) =~= here.skip(1) + rest);
                    if offset + 1 < addresses.len() {
                        assert(here.skip(1) =~= addresses.skip(offset + 1));
                    } else {
                        assert(here.skip(1) =~= Seq::<u32>::empty());
                    }
                    assert(progress.remaining(networks@) =~= all.skip(1));
                }
                return Some((first + offset as u32, progress));
            }
            proof {
                let next = SeedProgress { index: (index + 1) as usize, offset: 0, count: self.count };
                let rest = networks@.skip(index + 1);
                assert(self.remaining(networks@) =~= expanded(rest));
                if index + 1 < networks.len() {
                    assert(rest[0] == networks@[index + 1]);
                    assert(rest.skip(1) =~= networks@.skip(index + 2));
                    vstd::arithmetic::power2::lemma_pow2_pos((32 - rest[0].length()) as nat);
                    assert(network_addresses(rest[0]).skip(0) =~= network_addresses(rest[0]));
                }
                assert(next.remaining(networks@) =~= expanded(rest));
            }
            index += 1;
            offset = 0;
        }
        None
    }
}

} // verus!
