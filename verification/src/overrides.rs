//! The operator's static lists, and the tables that are filled from them once
//! at start.
use std::collections::HashSet;
use vstd::prelude::*;

use crate::network::{id_of, Ipv4Cidr, LpmKey};

verus! {

broadcast use vstd::std_specs::hash::group_hash_axioms;

/// How many entries the allow list in the kernel holds.
pub const ALLOW_LPM_MAX_ENTRIES: usize = 1024;

/// The networks that are always allowed and those that are always denied, each
/// without repetition.
pub struct StaticOverrides {
    allow: Vec<Ipv4Cidr>,
    deny: Vec<Ipv4Cidr>,
}

/// The networks of a list, each once, in the order in which they first occur.
fn distinct(list: &Vec<Ipv4Cidr>) -> (r: Vec<Ipv4Cidr>)
    ensures
        r@.no_duplicates(),
        r@.to_set() == list@.to_set(),
        forall|i: int| 0 <= i < r.len() ==> (#[trigger] r[i]).wf(),
{
    let mut seen: HashSet<u64> = HashSet::new();
    let mut out: Vec<Ipv4Cidr> = Vec::new();
    for i in 0..list.len()
        invariant
            out@.no_duplicates(),
            forall|k: int| 0 <= k < i ==> (#[trigger] list[k]).wf(),
            forall|k: int| 0 <= k < i ==> out@.contains(#[trigger] list[k]),
            forall|k: int| 0 <= k < out.len() ==> list@.contains(#[trigger] out[k]) && out[k].wf(),
            forall|k: int|
                0 <= k < out.len() ==> seen@.contains(
                    crate::network::network_id(#[trigger] out[k]) as u64,
                ),
            forall|id: u64| #[trigger]
                seen@.contains(id) ==> exists|k: int|
                    0 <= k < out.len() && crate::network::network_id(#[trigger] out[k]) == id,
    {
        let network = list[i];
        let id: u64 = id_of(&network);
        let ghost before = out@;
        if seen.insert(id) {
            proof {
                assert forall|k: int| 0 <= k < out.len() implies out[k] != network by {
                    assert(seen@.contains(crate::network::network_id(out[k]) as u64));
                }
            }
            out.push(network);
            proof {
                assert(out[out.len() - 1] == network);
                assert forall|k: int| 0 <= k < i + 1 implies out@.contains(#[trigger] list[k]) by {
                    if k < i {
                        let m = choose|m: int| 0 <= m < before.len() && before[m] == list[k];
                        assert(out[m] == list[k]);
                    }
                }
                assert forall|other: u64| #[trigger] seen@.contains(other) implies exists|k: int|
                    0 <= k < out.len() && crate::network::network_id(#[trigger] out[k]) == other by {
                    if other != id {
                        let k = choose|k: int|
                            0 <= k < before.len() && crate::network::network_id(
                                #[trigger] before[k],
                            ) == other;
                        assert(crate::network::network_id(out[k]) == other);
                    } else {
                        assert(crate::network::network_id(out[out.len() - 1]) == other);
                    }
                }
                assert(list@.contains(network));
            }
        } else {
            proof {
                let k = choose|k: int|
                    0 <= k < out.len() && crate::network::network_id(#[trigger] out[k]) == id;
                crate::network::law_network_id(out[k], network);
                assert(out@.contains(network));
            }
        }
    }
    assert(out@.to_set() =~= list@.to_set());
    out
}

/// The positions of the networks in `allow` that `deny` holds as well are
/// exactly those listed, in ascending order.
pub open spec fn overlaps(
    allow: Seq<Ipv4Cidr>,
    deny: Seq<Ipv4Cidr>,
    positions: Seq<usize>,
) -> bool {
    &&& forall|k: int|
        0 <= k < positions.len() ==> #[trigger] positions[k] < allow.len() && deny.contains(
            allow[positions[k] as int],
        )
    &&& forall|i: int|
        0 <= i < allow.len() && deny.contains(#[trigger] allow[i]) ==> positions.contains(
            i as usize,
        )
    &&& forall|j: int, k: int|
        0 <= j < k < positions.len() ==> #[trigger] positions[j] < #[trigger] positions[k]
}

/// The positions of the networks in `allow` that `deny` holds as well.
fn overlapping(allow: &Vec<Ipv4Cidr>, deny: &Vec<Ipv4Cidr>) -> (r: Vec<usize>)
    ensures
        overlaps(allow@, deny@, r@),
{
    let mut denied: HashSet<u64> = HashSet::new();
    for i in 0..deny.len()
        invariant
            forall|k: int|
                0 <= k < i ==> (#[trigger] deny[k]).wf() && denied@.contains(
                    crate::network::network_id(deny[k]) as u64,
                ),
            forall|id: u64| #[trigger]
                denied@.contains(id) ==> exists|k: int|
                    0 <= k < i && crate::network::network_id(#[trigger] deny[k]) == id,
    {
        let id: u64 = id_of(&deny[i]);
        let ghost before = denied@;
        denied.insert(id);
        proof {
            assert forall|other: u64| #[trigger] denied@.contains(other) implies exists|k: int|
                0 <= k < i + 1 && crate::network::network_id(#[trigger] deny[k]) == other by {
                if other == id {
                    assert(crate::network::network_id(deny[i as int]) == other);
                } else {
                    assert(before.contains(other));
                }
            }
        }
    }
    let mut positions: Vec<usize> = Vec::new();
    for i in 0..allow.len()
        invariant
            forall|k: int|
                0 <= k < deny.len() ==> (#[trigger] deny[k]).wf() && denied@.contains(
                    crate::network::network_id(deny[k]) as u64,
                ),
            forall|id: u64| #[trigger]
                denied@.contains(id) ==> exists|k: int|
                    0 <= k < deny.len() && crate::network::network_id(#[trigger] deny[k]) == id,
            forall|k: int|
                0 <= k < positions.len() ==> #[trigger] positions[k] < i && deny@.contains(
                    allow[positions[k] as int],
                ),
            forall|k: int|
                0 <= k < i && deny@.contains(#[trigger] allow[k]) ==> positions@.contains(
                    k as usize,
                ),
            forall|j: int, k: int|
                0 <= j < k < positions.len() ==> #[trigger] positions[j] < #[trigger] positions[k],
    {
        let id: u64 = id_of(&allow[i]);
        let ghost before = positions@;
        if denied.contains(&id) {
            proof {
                let k = choose|k: int|
                    0 <= k < deny.len() && crate::network::network_id(#[trigger] deny[k]) == id;
                crate::network::law_network_id(deny[k], allow[i as int]);
                assert(deny@.contains(allow[i as int]));
            }
            positions.push(i);
            proof {
                assert(positions[positions.len() - 1] == i);
                assert forall|k: int|
                    0 <= k < i + 1 && deny@.contains(#[trigger] allow[k]) implies positions@.contains(
                    k as usize,
                ) by {
                    if k < i {
                        let m = choose|m: int| 0 <= m < before.len() && before[m] == k as usize;
                        assert(positions[m] == k as usize);
                    }
                }
            }
        } else {
            proof {
                if deny@.contains(allow[i as int]) {
                    let k = choose|k: int| 0 <= k < deny.len() && deny[k] == allow[i as int];
                    assert(denied@.contains(crate::network::network_id(deny[k]) as u64));
                }
            }
        }
    }
    positions
}

impl StaticOverrides {
    /// The networks that are always allowed.
    pub closed spec fn allow_list(self) -> Seq<Ipv4Cidr> {
        self.allow@
    }

    /// The networks that are always denied.
    pub closed spec fn deny_list(self) -> Seq<Ipv4Cidr> {
        self.deny@
    }

    /// Both lists hold networks, and neither holds one twice.
    pub open spec fn wf(self) -> bool {
        &&& self.allow_list().no_duplicates()
        &&& self.deny_list().no_duplicates()
        &&& crate::network::all_wf(self.allow_list())
        &&& crate::network::all_wf(self.deny_list())
    }

    #[verifier::type_invariant]
    spec fn inv(self) -> bool {
        self.wf()
    }

    /// The overrides with exactly the networks of the two lists.
    pub fn new(allow: &Vec<Ipv4Cidr>, deny: &Vec<Ipv4Cidr>) -> (r: StaticOverrides)
        ensures
            r.wf(),
            r.allow_list().to_set() == allow@.to_set(),
            r.deny_list().to_set() == deny@.to_set(),
    {
        StaticOverrides { allow: distinct(allow), deny: distinct(deny) }
    }

    /// The overrides that an operator configured. A network that stands in
    /// both lists is a mistake: the error lists the positions of all such
    /// networks among the allowed ones.
    pub fn resolve(allow: &Vec<Ipv4Cidr>, deny: &Vec<Ipv4Cidr>) -> (r: Result<
        StaticOverrides,
        Vec<usize>,
    >)
        ensures
            r is Ok <==> forall|i: int| 0 <= i < allow.len() ==> !deny@.contains(#[trigger] allow[i]),
            r matches Ok(overrides) ==> overrides.wf() && overrides.allow_list().to_set()
                == allow@.to_set() && overrides.deny_list().to_set() == deny@.to_set(),
            r matches Err(positions) ==> overlaps(allow@, deny@, positions@),
    {
        let positions = overlapping(allow, deny);
        if positions.len() != 0 {
            assert(deny@.contains(allow[positions[0] as int]));
            return Err(positions);
        }
        Ok(StaticOverrides::new(allow, deny))
    }

    /// The networks that are always allowed.
    pub fn allowed(&self) -> (r: &Vec<Ipv4Cidr>)
        ensures
            r@ == self.allow_list(),
            self.wf(),
    {
        proof {
            use_type_invariant(self);
        }
        &self.allow
    }

    /// The networks that are always denied.
    pub fn denied(&self) -> (r: &Vec<Ipv4Cidr>)
        ensures
            r@ == self.deny_list(),
            self.wf(),
    {
        proof {
            use_type_invariant(self);
        }
        &self.deny
    }
}

/// The ports to protect: those configured or, where none is, 8009 and 8010.
pub fn protected_ports(configured: &Vec<u16>) -> (r: Vec<u16>)
    ensures
        r@ == if configured.len() == 0 {
            seq![8009u16, 8010u16]
        } else {
            configured@
        },
{
    if configured.len() == 0 {
        let mut ports: Vec<u16> = Vec::new();
        ports.push(8009);
        ports.push(8010);
        assert(ports@ =~= seq![8009u16, 8010u16]);
        ports
    } else {
        configured.clone()
    }
}

/// What to load into the allow list in the kernel.
#[derive(Debug)]
pub struct AllowListPlan {
    /// The entries, in the order in which they are inserted.
    pub keys: Vec<LpmKey>,
    /// Some network found no place.
    pub truncated: bool,
}

/// What to load into the allow list in the kernel for these networks: their
/// entries, as many as the table holds.
pub fn push_allow_list_to_map(allow_cidrs: &Vec<Ipv4Cidr>) -> (r: AllowListPlan)
    ensures
        r.keys.len() == if allow_cidrs.len() <= ALLOW_LPM_MAX_ENTRIES {
            allow_cidrs.len()
        } else {
            ALLOW_LPM_MAX_ENTRIES
        },
        forall|i: int| 0 <= i < r.keys.len() ==> #[trigger] r.keys[i] == allow_cidrs[i].key(),
        r.truncated == (allow_cidrs.len() > ALLOW_LPM_MAX_ENTRIES),
{
    let mut keys: Vec<LpmKey> = Vec::new();
    let mut i: usize = 0;
    while i < allow_cidrs.len()
        invariant
            i <= allow_cidrs.len(),
            i <= ALLOW_LPM_MAX_ENTRIES,
            keys.len() == i,
            forall|k: int| 0 <= k < i ==> #[trigger] keys[k] == allow_cidrs[k].key(),
        decreases allow_cidrs.len() - i,
    {
        if keys.len() >= ALLOW_LPM_MAX_ENTRIES {
            return AllowListPlan { keys, truncated: true };
        }
        keys.push(allow_cidrs[i].lpm_key());
        i += 1;
    }
    AllowListPlan { keys, truncated: false }
}

} // verus!
