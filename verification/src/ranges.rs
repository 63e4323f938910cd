//! Sets of addresses, held as coalesced inclusive ranges.
use rangemap::RangeInclusiveSet;
use std::ops::RangeInclusive;
use vstd::prelude::*;

use crate::network::{to_range, Ipv4Cidr};

verus! {

/// `rangemap::RangeInclusiveSet`, the set of ranges itself.
#[verifier::external_type_specification]
#[verifier::external_body]
#[verifier::reject_recursive_types(T)]
#[verifier::reject_recursive_types(StepFnsT)]
pub struct ExRangeInclusiveSet<T, StepFnsT>(RangeInclusiveSet<T, StepFnsT>);

/// The addresses that the ranges of a set cover.
pub uninterp spec fn covered(ranges: RangeInclusiveSet<u32>) -> Set<u32>;

/// The addresses from the first to the last one, both included.
pub open spec fn range_addresses(first: u32, last: u32) -> Set<u32> {
    Set::new(|address: u32| first <= address <= last)
}

/// Calls `RangeInclusiveSet::new`, which makes a set that covers nothing.
#[verifier::external_body]
fn range_set_new() -> (r: RangeInclusiveSet<u32>)
    ensures
        covered(r) == Set::<u32>::empty(),
{
    RangeInclusiveSet::new()
}

/// Calls `RangeInclusiveSet::insert`, which makes the set cover the addresses
/// of the range as well. It panics on a range that ends before it starts.
#[verifier::external_body]
fn range_set_insert(ranges: &mut RangeInclusiveSet<u32>, range: RangeInclusive<u32>)
    requires
        range@.start <= range@.end,
        !range@.exhausted,
    ensures
        covered(*final(ranges)) == covered(*old(ranges)).union(
            range_addresses(range@.start, range@.end),
        ),
{
    ranges.insert(range)
}

/// Calls `RangeInclusiveSet::contains`, which tells whether some range of the
/// set covers the address.
#[verifier::external_body]
pub(crate) fn range_set_contains(ranges: &RangeInclusiveSet<u32>, address: &u32) -> (r: bool)
    ensures
        r == covered(*ranges).contains(*address),
{
    ranges.contains(address)
}

/// The addresses that lie in at least one of the networks.
pub open spec fn union_of(networks: Seq<Ipv4Cidr>) -> Set<u32> {
    Set::new(
        |address: u32|
            exists|i: int| 0 <= i < networks.len() && (#[trigger] networks[i]).covers(address),
    )
}

/// The ranges that cover exactly the addresses of the networks.
pub fn ranges_of(networks: &Vec<Ipv4Cidr>) -> (r: RangeInclusiveSet<u32>)
    ensures
        covered(r) == union_of(networks@),
{
    let mut ranges = range_set_new();
    assert(covered(ranges) =~= union_of(networks@.take(0)));
    for i in 0..networks.len()
        invariant
            covered(ranges) == union_of(networks@.take(i as int)),
    {
        let ghost before = covered(ranges);
        range_set_insert(&mut ranges, to_range(networks[i]));
        proof {
            let shorter = networks@.take(i as int);
            let longer = networks@.take(i + 1);
            assert forall|address: u32| #[trigger]
                union_of(longer).contains(address) <==> (before.contains(address)
                    || networks[i as int].covers(address)) by {
                if before.contains(address) {
                    let k = choose|k: int| 0 <= k < shorter.len() && shorter[k].covers(address);
                    assert(longer[k].covers(address));
                }
                if networks[i as int].covers(address) {
                    assert(longer[i as int].covers(address));
                }
                if union_of(longer).contains(address) {
                    let k = choose|k: int| 0 <= k < longer.len() && longer[k].covers(address);
                    if k < i {
                        assert(shorter[k].covers(address));
                    }
                }
            }
            assert(covered(ranges) =~= union_of(longer));
        }
    }
    assert(networks@.take(networks.len() as int) =~= networks@);
    ranges
}

} // verus!
