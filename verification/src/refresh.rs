//! Bringing the deny list in line with a fresh list of denied networks, one
//! table operation at a time.
use std::collections::HashSet;
use vstd::prelude::*;

use crate::network::Ipv4Cidr;

verus! {

broadcast use vstd::std_specs::hash::group_hash_axioms;

/// What a refresh asks for.
#[derive(Clone, Copy, Debug, PartialEq, Eq)]
pub enum RefreshRequest {
    /// Take the address out of the table.
    Remove(u32),
    /// Is the address in the table?
    Lookup(u32),
    /// Put the address into the table.
    Insert(u32),
    /// Nothing more.
    Done,
}

/// A refresh under way: what is still to be removed, then what is still to be
/// checked, and whether the first of those was found missing.
pub struct RefreshView {
    pub removals: Seq<u32>,
    pub checks: Seq<u32>,
    pub inserting: bool,
}

impl RefreshView {
    /// What the refresh asks for: the removals come first, then each address
    /// is looked up and, where it was missing, inserted.
    pub open spec fn asks(self) -> RefreshRequest {
        if self.removals.len() > 0 {
            RefreshRequest::Remove(self.removals[0])
        } else if self.checks.len() == 0 {
            RefreshRequest::Done
        } else if self.inserting {
            RefreshRequest::Insert(self.checks[0])
        } else {
            RefreshRequest::Lookup(self.checks[0])
        }
    }

    /// The refresh after its request was carried out. Only a lookup cares how
    /// that went: it found the address or not.
    pub open spec fn after(self, ok: bool) -> RefreshView {
        match self.asks() {
            RefreshRequest::Remove(_) => RefreshView { removals: self.removals.skip(1), ..self },
            RefreshRequest::Lookup(_) => if ok {
                RefreshView { checks: self.checks.skip(1), ..self }
            } else {
                RefreshView { inserting: true, ..self }
            },
            RefreshRequest::Insert(_) => RefreshView {
                checks: self.checks.skip(1),
                inserting: false,
                ..self
            },
            RefreshRequest::Done => self,
        }
    }
}

/// A refresh under way.
#[derive(Debug)]
pub struct RefreshRun {
    removals: Vec<u32>,
    removed: usize,
    checks: Vec<u32>,
    checked: usize,
    inserting: bool,
}

impl View for RefreshRun {
    type V = RefreshView;

    closed spec fn view(&self) -> RefreshView {
        RefreshView {
            removals: self.removals@.skip(self.removed as int),
            checks: self.checks@.skip(self.checked as int),
            inserting: self.inserting,
        }
    }
}

impl RefreshRun {
    #[verifier::type_invariant]
    spec fn inv(self) -> bool {
        self.removed <= self.removals.len() && self.checked <= self.checks.len()
    }

    /// A refresh that has these removals and these checks before it.
    pub fn new(removals: Vec<u32>, checks: Vec<u32>) -> (r: RefreshRun)
        ensures
            r@ == (RefreshView { removals: removals@, checks: checks@, inserting: false }),
    {
        let r = RefreshRun { removals, removed: 0, checks, checked: 0, inserting: false };
        assert(r@.removals =~= removals@);
        assert(r@.checks =~= checks@);
        r
    }

    /// How many removals are still to come.
    pub fn removals_left(&self) -> (r: usize)
        ensures
            r == self@.removals.len(),
    {
        proof {
            use_type_invariant(self);
        }
        self.removals.len() - self.removed
    }

    /// What the refresh asks for.
    pub fn request(&self) -> (r: RefreshRequest)
        ensures
            r == self@.asks(),
    {
        proof {
            use_type_invariant(self);
        }
        if self.removed < self.removals.len() {
            RefreshRequest::Remove(self.removals[self.removed])
        } else if self.checked >= self.checks.len() {
            RefreshRequest::Done
        } else if self.inserting {
            RefreshRequest::Insert(self.checks[self.checked])
        } else {
            RefreshRequest::Lookup(self.checks[self.checked])
        }
    }

    /// Takes note of how the request went; for a lookup, whether it found the
    /// address.
    pub fn answer(self, ok: bool) -> (r: RefreshRun)
        ensures
            r@ == self@.after(ok),
    {
        proof {
            use_type_invariant(&self);
        }
        let ghost before = self@;
        let RefreshRun { removals, removed, checks, checked, inserting } = self;
        if removed < removals.len() {
            assert(before.removals.skip(1) =~= removals@.skip(removed + 1));
            RefreshRun { removals, removed: removed + 1, checks, checked, inserting }
        } else if checked >= checks.len() {
            RefreshRun { removals, removed, checks, checked, inserting }
        } else if inserting {
            assert(before.checks.skip(1) =~= checks@.skip(checked + 1));
            RefreshRun { removals, removed, checks, checked: checked + 1, inserting: false }
        } else if ok {
            assert(before.checks.skip(1) =~= checks@.skip(checked + 1));
            RefreshRun { removals, removed, checks, checked: checked + 1, inserting }
        } else {
            RefreshRun { removals, removed, checks, checked, inserting: true }
        }
    }
}

/// Adds the addresses of a network that are not covered by the ranges.
fn add_network(
    addresses: &mut HashSet<u32>,
    network: &Ipv4Cidr,
    exempt: &rangemap::RangeInclusiveSet<u32>,
)
    ensures
        forall|a: u32| #[trigger]
            final(addresses)@.contains(a) <==> old(addresses)@.contains(a) || (network.covers(a)
                && !crate::ranges::covered(*exempt).contains(a)),
{
    let first: u32 = network.first_address();
    let last: u32 = network.last_address();
    let mut next: u64 = first as u64;
    while next <= last as u64
        invariant
            first == network.first(),
            last == network.last(),
            first <= next <= last + 1,
            forall|a: u32| #[trigger]
                addresses@.contains(a) <==> old(addresses)@.contains(a) || (first <= a < next
                    && !crate::ranges::covered(*exempt).contains(a)),
        decreases last + 1 - next,
    {
        let address: u32 = next as u32;
        if !crate::ranges::range_set_contains(exempt, &address) {
            addresses.insert(address);
        }
        next += 1;
    }
}

/// The addresses of the networks that are not covered by the ranges.
pub(crate) fn addresses_of(
    networks: &Vec<Ipv4Cidr>,
    exempt: &rangemap::RangeInclusiveSet<u32>,
) -> (r: HashSet<u32>)
    ensures
        r@ == crate::ranges::union_of(networks@).difference(crate::ranges::covered(*exempt)),
{
    let mut addresses: HashSet<u32> = HashSet::new();
    for i in 0..networks.len()
        invariant
            forall|a: u32| #[trigger]
                addresses@.contains(a) <==> exists|k: int|
                    0 <= k < i && (#[trigger] networks[k]).covers(a)
                        && !crate::ranges::covered(*exempt).contains(a),
    {
        let ghost before = addresses@;
        add_network(&mut addresses, &networks[i], exempt);
        proof {
            assert forall|a: u32| #[trigger] addresses@.contains(a) <==> exists|k: int|
                0 <= k < i + 1 && (#[trigger] networks[k]).covers(a)
                    && !crate::ranges::covered(*exempt).contains(a) by {
                if before.contains(a) {
                    let k = choose|k: int|
                        0 <= k < i && (#[trigger] networks[k]).covers(a)
                            && !crate::ranges::covered(*exempt).contains(a);
                    assert(networks[k].covers(a));
                }
                if networks[i as int].covers(a) {
                    assert(networks@[i as int].covers(a));
                }
            }
        }
    }
    proof {
        assert forall|a: u32| #[trigger] addresses@.contains(a) <==> crate::ranges::union_of(
            networks@,
        ).difference(crate::ranges::covered(*exempt)).contains(a) by {
            if exists|k: int| 0 <= k < networks.len() && (#[trigger] networks@[k]).covers(a) {
                let k = choose|k: int| 0 <= k < networks.len() && (#[trigger] networks@[k]).covers(a);
                assert(networks[k].covers(a));
            }
        }
        assert(addresses@ =~= crate::ranges::union_of(networks@).difference(
            crate::ranges::covered(*exempt),
        ));
    }
    addresses
}

/// The addresses of a set, each once, in some order.
pub(crate) fn walked(addresses: &HashSet<u32>) -> (r: Vec<u32>)
    ensures
        r@.no_duplicates(),
        r@.to_set() == addresses@,
{
    let mut list: Vec<u32> = Vec::new();
    for address in iter: addresses.iter()
        invariant
            list@ == iter.seq().unref().take(iter.index() as int),
            iter.seq().unref().to_set() == addresses@,
            iter.seq().unref().no_duplicates(),
            iter.index() == iter.seq().len() ==> list@ == iter.seq().unref(),
    {
        list.push(*address);
        assert(list@ =~= iter.seq().unref().take(iter.index() + 1));
    }
    list
}

/// The entry was read, and its address is neither wanted nor exempt.
pub open spec fn is_stale(entry: Option<u32>, wanted: Set<u32>, exempt: Set<u32>) -> bool {
    entry matches Some(address) && !wanted.contains(address) && !exempt.contains(address)
}

/// The addresses of the stale entries, in the order of the entries.
pub open spec fn stale(entries: Seq<Option<u32>>, wanted: Set<u32>, exempt: Set<u32>) -> Seq<u32>
    decreases entries.len(),
{
    if entries.len() == 0 {
        Seq::empty()
    } else {
        let before = stale(entries.drop_last(), wanted, exempt);
        if is_stale(entries.last(), wanted, exempt) {
            before.push(entries.last().unwrap())
        } else {
            before
        }
    }
}

/// The addresses of the stale entries, in the order of the entries.
pub(crate) fn stale_entries(
    entries: &Vec<Option<u32>>,
    wanted: &HashSet<u32>,
    exempt: &rangemap::RangeInclusiveSet<u32>,
) -> (r: Vec<u32>)
    ensures
        r@ == stale(entries@, wanted@, crate::ranges::covered(*exempt)),
{
    let mut list: Vec<u32> = Vec::new();
    for i in 0..entries.len()
        invariant
            list@ == stale(entries@.take(i as int), wanted@, crate::ranges::covered(*exempt)),
    {
        assert(entries@.take(i + 1).drop_last() =~= entries@.take(i as int));
        assert(entries@.take(i + 1).last() == entries@[i as int]);
        if let Some(address) = entries[i] {
            if !wanted.contains(&address) && !crate::ranges::range_set_contains(exempt, &address) {
                list.push(address);
            }
        }
    }
    assert(entries@.take(entries.len() as int) =~= entries@);
    list
}

} // verus!
