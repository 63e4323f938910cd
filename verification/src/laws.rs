//! What holds of the firewall as a whole: of seeding and refreshing the deny
//! list from beginning to end, of the packets that pass, and of what is
//! counted.
use vstd::prelude::*;

use crate::datapath::{Tables, XdpAction};
use crate::deny_client::DenyListClient;
use crate::network::{Ipv4Cidr, LpmKey};
use crate::packet::Headers;
use crate::refresh::{RefreshRequest, RefreshView};
use crate::seeding::{SeedNext, DENY_LIST_CAP};
use crate::stats::{ConnectionStats, RuntimeControls, StatType};
use crate::updater::{DenyListStateUpdater, RunAction, RunEvent, RunState};

verus! {

/// The addresses that are not allowed, in order.
pub open spec fn not_allowed(addresses: Seq<u32>, allow: Set<u32>) -> Seq<u32>
    decreases addresses.len(),
{
    if addresses.len() == 0 {
        Seq::empty()
    } else if allow.contains(addresses[0]) {
        not_allowed(addresses.skip(1), allow)
    } else {
        seq![addresses[0]] + not_allowed(addresses.skip(1), allow)
    }
}

/// Seeding from beginning to end.
pub struct Seeded {
    /// The addresses that it asked to insert, in order.
    pub asked: Seq<u32>,
    /// How many of these insertions succeeded.
    pub count: usize,
    /// The cap cut it short.
    pub truncated: bool,
}

/// What seeding comes to, with these addresses still to come and this many
/// inserted, where `works` tells of each further attempt whether it succeeds.
pub open spec fn seeded(
    remaining: Seq<u32>,
    allow: Set<u32>,
    count: usize,
    works: spec_fn(nat) -> bool,
    attempt: nat,
) -> Seeded
    decreases remaining.len(),
{
    match crate::seeding::seed_next(remaining, allow, count) {
        SeedNext::Done { truncated } => Seeded { asked: Seq::empty(), count, truncated },
        SeedNext::Insert { address, remaining: rest } => {
            proof {
                lemma_skip_allowed(remaining, allow);
            }
            let tail = seeded(
                rest,
                allow,
                crate::seeding::noted_count(count, works(attempt)),
                works,
                attempt + 1,
            );
            Seeded { asked: seq![address] + tail.asked, ..tail }
        },
    }
}

/// Skipping the allowed addresses at the front leaves no more addresses, and
/// the same ones that are not allowed, the first of which is now in front.
pub proof fn lemma_skip_allowed(addresses: Seq<u32>, allow: Set<u32>)
    ensures
        crate::seeding::skip_allowed(addresses, allow).len() <= addresses.len(),
        not_allowed(crate::seeding::skip_allowed(addresses, allow), allow) == not_allowed(
            addresses,
            allow,
        ),
        crate::seeding::skip_allowed(addresses, allow).len() > 0 ==> !allow.contains(
            crate::seeding::skip_allowed(addresses, allow)[0],
        ),
    decreases addresses.len(),
{
    if addresses.len() > 0 && allow.contains(addresses[0]) {
        lemma_skip_allowed(addresses.skip(1), allow);
    }
}

proof fn lemma_not_allowed(addresses: Seq<u32>, allow: Set<u32>)
    ensures
        forall|a: u32| #[trigger]
            not_allowed(addresses, allow).contains(a) <==> addresses.contains(a)
                && !allow.contains(a),
    decreases addresses.len(),
{
    if addresses.len() > 0 {
        let rest = addresses.skip(1);
        lemma_not_allowed(rest, allow);
        assert(addresses =~= seq![addresses[0]] + rest);
        assert forall|a: u32| #[trigger]
            not_allowed(addresses, allow).contains(a) <==> addresses.contains(a)
                && !allow.contains(a) by {
            assert(addresses.contains(a) <==> a == addresses[0] || rest.contains(a)) by {
                if rest.contains(a) {
                    let k = choose|k: int| 0 <= k < rest.len() && rest[k] == a;
                    assert(addresses[k + 1] == a);
                }
                if addresses.contains(a) && a != addresses[0] {
                    let k = choose|k: int| 0 <= k < addresses.len() && addresses[k] == a;
                    assert(rest[k - 1] == a);
                }
            }
            if !allow.contains(addresses[0]) {
                let tail = not_allowed(rest, allow);
                let all = seq![addresses[0]] + tail;
                if tail.contains(a) {
                    let k = choose|k: int| 0 <= k < tail.len() && tail[k] == a;
                    assert(all[k + 1] == a);
                }
                if a == addresses[0] {
                    assert(all[0] == a);
                }
                if all.contains(a) && a != addresses[0] {
                    let k = choose|k: int| 0 <= k < all.len() && all[k] == a;
                    assert(tail[k - 1] == a);
                }
            }
        }
    }
}

/// Seeding asks for the addresses that are not allowed, in order and from the
/// first one on; it asks for all of them unless it was truncated. It never
/// counts beyond the cap nor more than it asked for, and is truncated only when
/// the cap is reached. Where every insertion succeeds, each is counted.
pub proof fn law_seeding(
    remaining: Seq<u32>,
    allow: Set<u32>,
    count: usize,
    works: spec_fn(nat) -> bool,
    attempt: nat,
)
    requires
        count <= DENY_LIST_CAP,
    ensures
        ({
            let end = seeded(remaining, allow, count, works, attempt);
            let wanted = not_allowed(remaining, allow);
            &&& end.asked.len() <= wanted.len()
            &&& end.asked == wanted.take(end.asked.len() as int)
            &&& !end.truncated ==> end.asked == wanted
            &&& count <= end.count <= DENY_LIST_CAP
            &&& end.count <= count + end.asked.len()
            &&& end.truncated ==> end.count == DENY_LIST_CAP
            &&& (forall|n: nat| #[trigger] works(n)) ==> end.count == count + end.asked.len()
        }),
    decreases remaining.len(),
{
    let wanted = not_allowed(remaining, allow);
    lemma_skip_allowed(remaining, allow);
    match crate::seeding::seed_next(remaining, allow, count) {
        SeedNext::Done { truncated } => {
            assert(wanted.take(0) =~= Seq::<u32>::empty());
            if !truncated {
                assert(wanted =~= Seq::<u32>::empty());
            }
        },
        SeedNext::Insert { address, remaining: rest } => {
            let noted = crate::seeding::noted_count(count, works(attempt));
            law_seeding(rest, allow, noted, works, attempt + 1);
            let tail = seeded(rest, allow, noted, works, attempt + 1);
            let end = seeded(remaining, allow, count, works, attempt);
            let wanted_rest = not_allowed(rest, allow);
            assert(wanted == seq![address] + wanted_rest);
            assert(end.asked =~= wanted.take(end.asked.len() as int));
            if !end.truncated {
                assert(end.asked =~= wanted);
            }
        },
    }
}

/// What seeding asks to insert is denied by some static network and allowed by
/// none.
pub proof fn law_seeding_is_static<T: DenyListClient>(
    updater: DenyListStateUpdater<T>,
    works: spec_fn(nat) -> bool,
    address: u32,
)
    requires
        updater.wf(),
        seeded(
            crate::seeding::expanded(updater.deny_networks()),
            updater.allow_set(),
            0,
            works,
            0,
        ).asked.contains(address),
    ensures
        updater.deny_set().contains(address),
        !updater.allow_set().contains(address),
{
    let all = crate::seeding::expanded(updater.deny_networks());
    law_seeding(all, updater.allow_set(), 0, works, 0);
    let asked = seeded(all, updater.allow_set(), 0, works, 0).asked;
    let wanted = not_allowed(all, updater.allow_set());
    let k = choose|k: int| 0 <= k < asked.len() && asked[k] == address;
    assert(wanted.take(asked.len() as int)[k] == wanted[k]);
    assert(wanted.contains(address));
    lemma_not_allowed(all, updater.allow_set());
    assert(all.contains(address));
    lemma_expanded(updater.deny_networks());
}

/// The cap leaves room for all addresses that seeding is to insert, counted as
/// often as they occur in the static networks.
pub open spec fn within_cap<T: DenyListClient>(updater: DenyListStateUpdater<T>) -> bool {
    not_allowed(
        crate::seeding::expanded(updater.deny_networks()),
        updater.allow_set(),
    ).len() <= DENY_LIST_CAP
}

/// Unless more addresses are to be inserted than the cap leaves room for and it
/// is cut short, seeding asks to insert each address that some static network
/// denies and none allows.
pub proof fn law_seeding_is_complete<T: DenyListClient>(
    updater: DenyListStateUpdater<T>,
    works: spec_fn(nat) -> bool,
    address: u32,
)
    requires
        updater.wf(),
        updater.deny_set().contains(address),
        !updater.allow_set().contains(address),
        within_cap(updater) || !seeded(
            crate::seeding::expanded(updater.deny_networks()),
            updater.allow_set(),
            0,
            works,
            0,
        ).truncated,
    ensures
        seeded(
            crate::seeding::expanded(updater.deny_networks()),
            updater.allow_set(),
            0,
            works,
            0,
        ).asked.contains(address),
{
    let all = crate::seeding::expanded(updater.deny_networks());
    law_seeding(all, updater.allow_set(), 0, works, 0);
    lemma_not_allowed(all, updater.allow_set());
    lemma_expanded(updater.deny_networks());
    let wanted = not_allowed(all, updater.allow_set());
    assert(seeded(all, updater.allow_set(), 0, works, 0).asked =~= wanted);
}

pub(crate) proof fn lemma_network_addresses(network: Ipv4Cidr)
    requires
        network.wf(),
    ensures
        network.last() <= u32::MAX,
        forall|a: u32| #[trigger]
            crate::seeding::network_addresses(network).contains(a) <==> network.covers(a),
{
    let b = crate::network::block_size(network.length()) as int;
    let first = network.first() as int;
    let blocks = vstd::arithmetic::power2::pow2(network.length() as nat) as int;
    vstd::arithmetic::power2::lemma_pow2_pos((32 - network.length()) as nat);
    vstd::arithmetic::power2::lemma_pow2_adds(
        (32 - network.length()) as nat,
        network.length() as nat,
    );
    vstd::arithmetic::power2::lemma2_to64();
    assert(b * blocks == 0x100000000);
    vstd::arithmetic::div_mod::lemma_fundamental_div_mod(first, b);
    let q = first / b;
    assert(first + b <= 0x100000000) by (nonlinear_arith)
        requires
            first == b * q,
            first < 0x100000000,
            b * blocks == 0x100000000,
            b > 0,
    ;
    let addresses = crate::seeding::network_addresses(network);
    assert forall|a: u32| #[trigger] addresses.contains(a) <==> network.covers(a) by {
        if network.covers(a) {
            assert(addresses[a - first] == a);
        }
        if addresses.contains(a) {
            let k = choose|k: int| 0 <= k < addresses.len() && addresses[k] == a;
            assert(a == (first + k) as u32);
        }
    }
}

pub(crate) proof fn lemma_expanded(networks: Seq<Ipv4Cidr>)
    requires
        crate::network::all_wf(networks),
    ensures
        forall|a: u32| #[trigger]
            crate::seeding::expanded(networks).contains(a) <==> crate::ranges::union_of(
                networks,
            ).contains(a),
    decreases networks.len(),
{
    if networks.len() > 0 {
        let rest = networks.skip(1);
        assert forall|i: int| 0 <= i < rest.len() implies (#[trigger] rest[i]).wf() by {
            assert(networks[i + 1].wf());
        }
        lemma_expanded(rest);
        lemma_network_addresses(networks[0]);
        let here = crate::seeding::network_addresses(networks[0]);
        let tail = crate::seeding::expanded(rest);
        let all = here + tail;
        assert forall|a: u32| #[trigger]
            crate::seeding::expanded(networks).contains(a) <==> crate::ranges::union_of(
                networks,
            ).contains(a) by {
            if here.contains(a) {
                let k = choose|k: int| 0 <= k < here.len() && here[k] == a;
                assert(all[k] == a);
                assert(networks[0].covers(a));
            }
            if tail.contains(a) {
                let k = choose|k: int| 0 <= k < tail.len() && tail[k] == a;
                assert(all[here.len() + k] == a);
                let i = choose|i: int| 0 <= i < rest.len() && (#[trigger] rest[i]).covers(a);
                assert(networks[i + 1].covers(a));
            }
            if all.contains(a) {
                let k = choose|k: int| 0 <= k < all.len() && all[k] == a;
                if k < here.len() {
                    assert(here[k] == a);
                } else {
                    assert(tail[k - here.len()] == a);
                }
            }
            if crate::ranges::union_of(networks).contains(a) {
                let i = choose|i: int|
                    0 <= i < networks.len() && (#[trigger] networks[i]).covers(a);
                if i > 0 {
                    assert(rest[i - 1].covers(a));
                    assert(crate::ranges::union_of(rest).contains(a));
                }
            }
        }
    }
}

/// Which table operations fail.
pub struct Failures {
    /// The addresses whose removal fails.
    pub removals: Set<u32>,
    /// The addresses whose lookup fails though they are there.
    pub lookups: Set<u32>,
    /// The addresses whose insertion fails.
    pub insertions: Set<u32>,
}

impl Failures {
    /// Every operation succeeds.
    pub open spec fn none() -> Failures {
        Failures { removals: Set::empty(), lookups: Set::empty(), insertions: Set::empty() }
    }
}

/// The deny list after a refresh of which these operations fail.
pub open spec fn refreshed(refresh: RefreshView, table: Set<u32>, failures: Failures) -> Set<u32>
    decreases
            refresh.removals.len(),
            refresh.checks.len(),
            if refresh.inserting {
                0int
            } else {
                1int
            },
{
    match refresh.asks() {
        RefreshRequest::Remove(address) => refreshed(
            refresh.after(true),
            if failures.removals.contains(address) {
                table
            } else {
                table.remove(address)
            },
            failures,
        ),
        RefreshRequest::Lookup(address) => refreshed(
            refresh.after(table.contains(address) && !failures.lookups.contains(address)),
            table,
            failures,
        ),
        RefreshRequest::Insert(address) => refreshed(
            refresh.after(true),
            if failures.insertions.contains(address) {
                table
            } else {
                table.insert(address)
            },
            failures,
        ),
        RefreshRequest::Done => table,
    }
}

proof fn lemma_skip_first(s: Seq<u32>)
    requires
        s.len() > 0,
    ensures
        forall|a: u32| #[trigger] s.contains(a) <==> a == s[0] || s.skip(1).contains(a),
{
    let rest = s.skip(1);
    assert forall|a: u32| #[trigger] s.contains(a) <==> a == s[0] || rest.contains(a) by {
        if rest.contains(a) {
            let k = choose|k: int| 0 <= k < rest.len() && rest[k] == a;
            assert(s[k + 1] == a);
        }
        if s.contains(a) && a != s[0] {
            let k = choose|k: int| 0 <= k < s.len() && s[k] == a;
            assert(rest[k - 1] == a);
        }
    }
}

pub(crate) proof fn lemma_refreshed(refresh: RefreshView, table: Set<u32>, failures: Failures)
    ensures
        forall|a: u32| #[trigger]
            refreshed(refresh, table, failures).contains(a) <==> (refresh.checks.contains(a)
                && !failures.insertions.contains(a)) || (table.contains(a) && (
            !refresh.removals.contains(a) || failures.removals.contains(a))),
    decreases
            refresh.removals.len(),
            refresh.checks.len(),
            if refresh.inserting {
                0int
            } else {
                1int
            },
{
    let end = refreshed(refresh, table, failures);
    match refresh.asks() {
        RefreshRequest::Remove(address) => {
            let after = refresh.after(true);
            let rest = if failures.removals.contains(address) {
                table
            } else {
                table.remove(address)
            };
            lemma_refreshed(after, rest, failures);
            lemma_skip_first(refresh.removals);
            assert(end == refreshed(after, rest, failures));
        },
        RefreshRequest::Lookup(address) => {
            let after = refresh.after(
                table.contains(address) && !failures.lookups.contains(address),
            );
            lemma_refreshed(after, table, failures);
            lemma_skip_first(refresh.checks);
            assert(end == refreshed(after, table, failures));
        },
        RefreshRequest::Insert(address) => {
            let after = refresh.after(true);
            let rest = if failures.insertions.contains(address) {
                table
            } else {
                table.insert(address)
            };
            lemma_refreshed(after, rest, failures);
            lemma_skip_first(refresh.checks);
            assert(end == refreshed(after, rest, failures));
        },
        RefreshRequest::Done => {
            assert(end == table);
        },
    }
}

pub(crate) proof fn lemma_stale(entries: Seq<Option<u32>>, wanted: Set<u32>, exempt: Set<u32>)
    ensures
        forall|a: u32| #[trigger]
            crate::refresh::stale(entries, wanted, exempt).contains(a) <==> entries.contains(
                Some(a),
            ) && !wanted.contains(a) && !exempt.contains(a),
    decreases entries.len(),
{
    if entries.len() > 0 {
        let rest = entries.drop_last();
        lemma_stale(rest, wanted, exempt);
        let before = crate::refresh::stale(rest, wanted, exempt);
        let all = crate::refresh::stale(entries, wanted, exempt);
        assert forall|a: u32| #[trigger] all.contains(a) <==> entries.contains(Some(a))
            && !wanted.contains(a) && !exempt.contains(a) by {
            assert(entries.contains(Some(a)) <==> entries.last() == Some(a) || rest.contains(
                Some(a),
            )) by {
                if rest.contains(Some(a)) {
                    let k = choose|k: int| 0 <= k < rest.len() && rest[k] == Some(a);
                    assert(entries[k] == Some(a));
                }
                if entries.contains(Some(a)) && entries.last() != Some(a) {
                    let k = choose|k: int| 0 <= k < entries.len() && entries[k] == Some(a);
                    assert(rest[k] == Some(a));
                }
            }
            if before.contains(a) {
                let k = choose|k: int| 0 <= k < before.len() && before[k] == a;
                assert(all[k] == a);
            }
            if crate::refresh::is_stale(entries.last(), wanted, exempt) {
                assert(all[before.len() as int] == entries.last().unwrap());
            }
            if all.contains(a) && !before.contains(a) {
                let k = choose|k: int| 0 <= k < all.len() && all[k] == a;
                if k < before.len() {
                    assert(before[k] == a);
                }
            }
        }
    }
}

/// What the deny list holds after a refresh, whatever fails: of what the fresh
/// networks call for all but what was missing and could not be inserted; and of
/// what it held before, what is always denied, what could not be removed, and
/// what was not among the entries that could be read.
pub proof fn law_refresh_with_failures<T: DenyListClient>(
    updater: DenyListStateUpdater<T>,
    nodes: Seq<Ipv4Cidr>,
    entries: Seq<Option<u32>>,
    refresh: RefreshView,
    table: Set<u32>,
    failures: Failures,
)
    requires
        updater.is_refresh(nodes, entries, refresh),
    ensures
        refreshed(refresh, table, failures) == updater.dynamic_set(nodes).difference(
            failures.insertions.difference(table),
        ).union(
            table.filter(
                |a: u32|
                    updater.deny_set().contains(a) || failures.removals.contains(a)
                        || !entries.contains(Some(a)),
            ),
        ),
{
    lemma_refreshed(refresh, table, failures);
    lemma_stale(entries, updater.dynamic_set(nodes), updater.deny_set());
    let wanted = updater.dynamic_set(nodes).difference(failures.insertions.difference(table));
    let kept = table.filter(
        |a: u32|
            updater.deny_set().contains(a) || failures.removals.contains(a) || !entries.contains(
                Some(a),
            ),
    );
    assert forall|a: u32| #[trigger] refreshed(refresh, table, failures).contains(a)
        <==> wanted.union(kept).contains(a) by {
        assert(refresh.checks.contains(a) <==> refresh.checks.to_set().contains(a));
    }
    assert(refreshed(refresh, table, failures) =~= wanted.union(kept));
}

/// After a refresh of which every operation succeeds, the deny list holds what
/// the fresh networks call for, and of what it held before only what is always
/// denied.
pub proof fn law_refresh_result<T: DenyListClient>(
    updater: DenyListStateUpdater<T>,
    nodes: Seq<Ipv4Cidr>,
    entries: Seq<Option<u32>>,
    refresh: RefreshView,
    table: Set<u32>,
)
    requires
        updater.is_refresh(nodes, entries, refresh),
        forall|a: u32| #[trigger] table.contains(a) <==> entries.contains(Some(a)),
    ensures
        refreshed(refresh, table, Failures::none()) == updater.dynamic_set(nodes).union(
            table.intersect(updater.deny_set()),
        ),
{
    law_refresh_with_failures(updater, nodes, entries, refresh, table, Failures::none());
    assert(refreshed(refresh, table, Failures::none()) =~= updater.dynamic_set(nodes).union(
        table.intersect(updater.deny_set()),
    ));
}

/// A second refresh with the same networks changes nothing.
pub proof fn law_refresh_settles<T: DenyListClient>(
    updater: DenyListStateUpdater<T>,
    nodes: Seq<Ipv4Cidr>,
    entries: Seq<Option<u32>>,
    refresh: RefreshView,
    table: Set<u32>,
    later_entries: Seq<Option<u32>>,
    later: RefreshView,
)
    requires
        updater.is_refresh(nodes, entries, refresh),
        forall|a: u32| #[trigger] table.contains(a) <==> entries.contains(Some(a)),
        updater.is_refresh(nodes, later_entries, later),
        forall|a: u32| #[trigger]
            refreshed(refresh, table, Failures::none()).contains(a) <==> later_entries.contains(Some(a)),
    ensures
        refreshed(later, refreshed(refresh, table, Failures::none()), Failures::none()) == refreshed(refresh, table, Failures::none()),
{
    law_refresh_result(updater, nodes, entries, refresh, table);
    law_refresh_result(updater, nodes, later_entries, later, refreshed(refresh, table, Failures::none()));
    assert(refreshed(later, refreshed(refresh, table, Failures::none()), Failures::none()) =~= refreshed(refresh, table, Failures::none()));
}

/// The deny list after an action of an updater that did or did not succeed.
pub open spec fn effect(table: Set<u32>, action: RunAction, ok: bool) -> Set<u32> {
    match action {
        RunAction::Insert(address) => if ok {
            table.insert(address)
        } else {
            table
        },
        RunAction::Remove(address) => if ok {
            table.remove(address)
        } else {
            table
        },
        _ => table,
    }
}

/// Nothing that is always allowed is due for insertion, and nothing that is
/// always denied is due for removal.
pub open spec fn respects_overrides<T: DenyListClient>(
    updater: DenyListStateUpdater<T>,
    state: RunState,
) -> bool {
    match state {
        RunState::Seed(address, _) => !updater.allow_set().contains(address),
        RunState::Refresh(refresh) => {
            &&& forall|a: u32| #[trigger]
                refresh@.checks.contains(a) ==> !updater.allow_set().contains(a)
            &&& forall|a: u32| #[trigger]
                refresh@.removals.contains(a) ==> !updater.deny_set().contains(a)
        },
        _ => true,
    }
}

/// An updater starts out respecting the static lists.
pub proof fn law_start_respects_overrides<T: DenyListClient>(updater: DenyListStateUpdater<T>)
    ensures
        respects_overrides(updater, RunState::Bind),
{
}

/// Whatever happens, an updater goes on respecting the static lists: an
/// address that is always allowed does not get into the deny list, and one
/// that is always denied does not get out of it.
pub proof fn law_step_respects_overrides<T: DenyListClient>(
    updater: DenyListStateUpdater<T>,
    state: RunState,
    event: RunEvent,
    next: RunState,
    table: Set<u32>,
    ok: bool,
)
    requires
        respects_overrides(updater, state),
        updater.steps(state, event, next),
        table.disjoint(updater.allow_set()),
    ensures
        respects_overrides(updater, next),
        effect(table, state.asks(), ok).disjoint(updater.allow_set()),
        table.intersect(updater.deny_set()).subset_of(effect(table, state.asks(), ok)),
{
    match (state, event) {
        (RunState::Bind, RunEvent::Completed(true)) => {
            lemma_skip_allowed(
                crate::seeding::expanded(updater.deny_networks()),
                updater.allow_set(),
            );
        },
        (RunState::Seed(_, progress), RunEvent::Completed(_)) => {
            lemma_skip_allowed(
                progress.remaining(updater.deny_networks()),
                updater.allow_set(),
            );
        },
        (RunState::List(nodes), RunEvent::Entries(entries)) => {
            let refresh = choose|refresh: RefreshView|
                updater.is_refresh(nodes@, entries@, refresh)
                    && #[trigger] crate::updater::settles(refresh, next);
            lemma_stale(entries@, updater.dynamic_set(nodes@), updater.deny_set());
            assert forall|a: u32| #[trigger] refresh.checks.contains(a) implies
                !updater.allow_set().contains(a) by {
                assert(refresh.checks.to_set().contains(a));
            }
        },
        (RunState::Refresh(refresh), RunEvent::Completed(done)) => {
            let after = refresh@.after(done);
            assert(forall|a: u32| #[trigger]
                after.checks.contains(a) ==> refresh@.checks.contains(a)) by {
                if refresh@.checks.len() > 0 {
                    lemma_skip_first(refresh@.checks);
                }
            }
            assert(forall|a: u32| #[trigger]
                after.removals.contains(a) ==> refresh@.removals.contains(a)) by {
                if refresh@.removals.len() > 0 {
                    lemma_skip_first(refresh@.removals);
                }
            }
        },
        _ => {},
    }
    match state {
        RunState::Refresh(refresh) => {
            if refresh@.removals.len() > 0 {
                assert(refresh@.removals.contains(refresh@.removals[0]));
            }
            if refresh@.checks.len() > 0 {
                assert(refresh@.checks.contains(refresh@.checks[0]));
            }
        },
        _ => {},
    }
}

/// The updater goes through these states, meeting these events, while the deny
/// list goes through these contents; `ok` tells how each action went.
pub open spec fn is_history<T: DenyListClient>(
    updater: DenyListStateUpdater<T>,
    states: Seq<RunState>,
    events: Seq<RunEvent>,
    ok: Seq<bool>,
    contents: Seq<Set<u32>>,
) -> bool {
    &&& states.len() == contents.len() == events.len() + 1 == ok.len() + 1
    &&& states[0] == RunState::Bind
    &&& forall|i: int| #![trigger states[i]]
        0 <= i < events.len() ==> updater.steps(states[i], events[i], states[i + 1])
            && contents[i + 1] == effect(contents[i], states[i].asks(), ok[i])
}

/// However its actions go, an updater that starts on a deny list without
/// addresses that are always allowed never lets one in, and never removes an
/// address that is always denied.
pub proof fn law_history_respects_overrides<T: DenyListClient>(
    updater: DenyListStateUpdater<T>,
    states: Seq<RunState>,
    events: Seq<RunEvent>,
    ok: Seq<bool>,
    contents: Seq<Set<u32>>,
    i: int,
    j: int,
)
    requires
        is_history(updater, states, events, ok, contents),
        contents[0].disjoint(updater.allow_set()),
        0 <= i <= j < contents.len(),
    ensures
        contents[j].disjoint(updater.allow_set()),
        contents[i].intersect(updater.deny_set()).subset_of(contents[j]),
        respects_overrides(updater, states[j]),
    decreases j,
{
    if j > 0 {
        let k = j - 1;
        assert(updater.steps(states[k], events[k], states[k + 1]));
        if i < j {
            law_history_respects_overrides(updater, states, events, ok, contents, i, k);
        } else {
            law_history_respects_overrides(updater, states, events, ok, contents, k, k);
        }
        law_step_respects_overrides(updater, states[k], events[k], states[j], contents[k], ok[k]);
    }
}

/// The action went as the failures say: it was reported as it went, a removal
/// of what was there and an insertion of what was missing failed if they were to
/// fail and only then, and a lookup told what the deny list holds unless it was
/// to fail.
pub open spec fn went(
    action: RunAction,
    event: RunEvent,
    ok: bool,
    table: Set<u32>,
    failures: Failures,
) -> bool {
    match action {
        RunAction::Insert(address) => event == RunEvent::Completed(ok) && (table.contains(address)
            || ok == !failures.insertions.contains(address)),
        RunAction::Remove(address) => event == RunEvent::Completed(ok) && (!table.contains(address)
            || ok == !failures.removals.contains(address)),
        RunAction::Lookup(address) => event == RunEvent::Completed(
            table.contains(address) && !failures.lookups.contains(address),
        ),
        _ => true,
    }
}

/// The action went well.
pub open spec fn went_well(
    action: RunAction,
    event: RunEvent,
    ok: bool,
    table: Set<u32>,
) -> bool {
    went(action, event, ok, table, Failures::none())
}

proof fn lemma_skip_keeps(addresses: Seq<u32>, allow: Set<u32>, a: u32)
    requires
        addresses.contains(a),
        !allow.contains(a),
    ensures
        crate::seeding::skip_allowed(addresses, allow).contains(a),
    decreases addresses.len(),
{
    if addresses.len() > 0 && allow.contains(addresses[0]) {
        lemma_skip_first(addresses);
        lemma_skip_keeps(addresses.skip(1), allow, a);
    }
}

/// An address that seeding is to cover is in the deny list or still to come,
/// and no more is counted, due and still to come than is to be inserted in all.
pub(crate) open spec fn seeding_covers<T: DenyListClient>(
    updater: DenyListStateUpdater<T>,
    state: RunState,
    table: Set<u32>,
    a: u32,
) -> bool {
    let allow = updater.allow_set();
    match state {
        RunState::Seed(address, progress) => {
            let remaining = progress.remaining(updater.deny_networks());
            &&& table.contains(a) || a == address || remaining.contains(a)
            &&& progress.inserted() + 1 + not_allowed(remaining, allow).len() <= not_allowed(
                crate::seeding::expanded(updater.deny_networks()),
                allow,
            ).len()
        },
        RunState::SeedReport(_, truncated) => (truncated && !within_cap(updater))
            || table.contains(a),
        _ => true,
    }
}

pub(crate) proof fn lemma_seeds_cover<T: DenyListClient>(
    updater: DenyListStateUpdater<T>,
    remaining: Seq<u32>,
    count: usize,
    next: RunState,
    table: Set<u32>,
    a: u32,
)
    requires
        updater.seeds(remaining, count, next),
        !updater.allow_set().contains(a),
        table.contains(a) || remaining.contains(a),
        count + not_allowed(remaining, updater.allow_set()).len() <= not_allowed(
            crate::seeding::expanded(updater.deny_networks()),
            updater.allow_set(),
        ).len(),
    ensures
        seeding_covers(updater, next, table, a),
{
    let allow = updater.allow_set();
    let rest = crate::seeding::skip_allowed(remaining, allow);
    lemma_skip_allowed(remaining, allow);
    if remaining.contains(a) {
        lemma_skip_keeps(remaining, allow, a);
        lemma_skip_first(rest);
        lemma_not_allowed(remaining, allow);
        assert(not_allowed(remaining, allow).contains(a));
    }
}

proof fn lemma_seeding_history<T: DenyListClient>(
    updater: DenyListStateUpdater<T>,
    states: Seq<RunState>,
    events: Seq<RunEvent>,
    ok: Seq<bool>,
    contents: Seq<Set<u32>>,
    j: int,
    a: u32,
)
    requires
        updater.wf(),
        is_history(updater, states, events, ok, contents),
        0 <= j < contents.len(),
        forall|k: int|
            0 <= k < j ==> went_well(
                (#[trigger] states[k]).asks(),
                events[k],
                ok[k],
                contents[k],
            ),
        forall|k: int|
            0 < k <= j ==> ((#[trigger] states[k]) is Seed || states[k] is SeedReport
                || states[k] is Stop || states[k] is Bind),
        updater.deny_set().contains(a),
        !updater.allow_set().contains(a),
    ensures
        seeding_covers(updater, states[j], contents[j], a),
    decreases j,
{
    if j > 0 {
        let k = j - 1;
        lemma_seeding_history(updater, states, events, ok, contents, k, a);
        assert(updater.steps(states[k], events[k], states[k + 1]));
        assert(contents[k + 1] == effect(contents[k], states[k].asks(), ok[k]));
        match (states[k], events[k]) {
            (RunState::Bind, RunEvent::Completed(true)) => {
                let all = crate::seeding::expanded(updater.deny_networks());
                lemma_expanded(updater.deny_networks());
                assert(all.contains(a));
                lemma_seeds_cover(updater, all, 0, states[j], contents[j], a);
            },
            (RunState::Seed(address, progress), _) => {
                assert(went_well(states[k].asks(), events[k], ok[k], contents[k]));
                lemma_seeds_cover(
                    updater,
                    progress.remaining(updater.deny_networks()),
                    crate::seeding::noted_count(progress.inserted(), ok[k]),
                    states[j],
                    contents[j],
                    a,
                );
            },
            _ => {},
        }
    }
}

/// When an updater reports on seeding of which every insertion went well, and
/// it was not cut short or no more was to be inserted than the cap leaves room
/// for, the deny list holds every address that some static network denies and
/// none allows.
pub proof fn law_seeding_fills_deny_list<T: DenyListClient>(
    updater: DenyListStateUpdater<T>,
    states: Seq<RunState>,
    events: Seq<RunEvent>,
    ok: Seq<bool>,
    contents: Seq<Set<u32>>,
    j: int,
)
    requires
        updater.wf(),
        is_history(updater, states, events, ok, contents),
        0 < j < contents.len(),
        forall|k: int|
            0 <= k < j ==> went_well(
                (#[trigger] states[k]).asks(),
                events[k],
                ok[k],
                contents[k],
            ),
        forall|k: int| 0 < k < j ==> (#[trigger] states[k]) is Seed || states[k] is Bind,
        states[j] matches RunState::SeedReport(_, truncated) && (!truncated || within_cap(updater)),
    ensures
        updater.deny_set().difference(updater.allow_set()).subset_of(contents[j]),
{
    assert forall|a: u32| updater.deny_set().difference(updater.allow_set()).contains(a) implies
        #[trigger] contents[j].contains(a) by {
        lemma_seeding_history(updater, states, events, ok, contents, j, a);
    }
}

/// How many insertions of seeding have succeeded before this point of a
/// history.
pub open spec fn seeded_so_far(states: Seq<RunState>, events: Seq<RunEvent>, j: int) -> nat
    decreases j,
{
    if j <= 0 {
        0
    } else {
        seeded_so_far(states, events, j - 1) + if states[j - 1] is Seed && events[j - 1]
            == RunEvent::Completed(true) {
            1nat
        } else {
            0nat
        }
    }
}

/// However the insertions go, seeding counts exactly those that succeed, asks
/// for another one only below the cap, and so reports no more than the cap.
pub proof fn law_seeding_is_capped<T: DenyListClient>(
    updater: DenyListStateUpdater<T>,
    states: Seq<RunState>,
    events: Seq<RunEvent>,
    ok: Seq<bool>,
    contents: Seq<Set<u32>>,
    j: int,
)
    requires
        is_history(updater, states, events, ok, contents),
        0 <= j < states.len(),
        forall|k: int| 0 < k < j ==> (#[trigger] states[k]) is Seed || states[k] is Bind,
    ensures
        states[j] is Bind ==> seeded_so_far(states, events, j) == 0,
        states[j] matches RunState::Seed(_, progress) ==> progress.inserted() == seeded_so_far(
            states,
            events,
            j,
        ) && progress.inserted() < DENY_LIST_CAP,
        states[j] matches RunState::SeedReport(count, _) ==> count == seeded_so_far(
            states,
            events,
            j,
        ) && count <= DENY_LIST_CAP,
    decreases j,
{
    if j > 0 {
        let k = j - 1;
        law_seeding_is_capped(updater, states, events, ok, contents, k);
        assert(updater.steps(states[k], events[k], states[k + 1]));
    }
}

proof fn lemma_refresh_history<T: DenyListClient>(
    updater: DenyListStateUpdater<T>,
    states: Seq<RunState>,
    events: Seq<RunEvent>,
    ok: Seq<bool>,
    contents: Seq<Set<u32>>,
    k: int,
    j: int,
    failures: Failures,
)
    requires
        is_history(updater, states, events, ok, contents),
        0 <= k < j < contents.len(),
        forall|m: int|
            k <= m < j ==> (#[trigger] states[m]) is Refresh && went(
                states[m].asks(),
                events[m],
                ok[m],
                contents[m],
                failures,
            ),
        states[k]->Refresh_0@.asks() != RefreshRequest::Done,
        states[j] == RunState::Sleep,
    ensures
        refreshed(states[k]->Refresh_0@, contents[k], failures) == contents[j],
    decreases j - k,
{
    assert(updater.steps(states[k], events[k], states[k + 1]));
    assert(contents[k + 1] == effect(contents[k], states[k].asks(), ok[k]));
    let here = states[k]->Refresh_0@;
    assert(went(states[k].asks(), events[k], ok[k], contents[k], failures));
    if k + 1 < j {
        assert(states[k + 1] is Refresh);
        lemma_refresh_history(updater, states, events, ok, contents, k + 1, j, failures);
    }
    match here.asks() {
        RefreshRequest::Remove(address) => {
            let rest = if failures.removals.contains(address) {
                contents[k]
            } else {
                contents[k].remove(address)
            };
            assert(contents[k + 1] =~= rest);
            assert(refreshed(here, contents[k], failures) == refreshed(
                here.after(true),
                rest,
                failures,
            ));
        },
        RefreshRequest::Lookup(address) => {
            let found = contents[k].contains(address) && !failures.lookups.contains(address);
            assert(refreshed(here, contents[k], failures) == refreshed(
                here.after(found),
                contents[k + 1],
                failures,
            ));
        },
        RefreshRequest::Insert(address) => {
            let rest = if failures.insertions.contains(address) {
                contents[k]
            } else {
                contents[k].insert(address)
            };
            assert(contents[k + 1] =~= rest);
            assert(refreshed(here, contents[k], failures) == refreshed(
                here.after(true),
                rest,
                failures,
            ));
        },
        RefreshRequest::Done => {},
    }
}

/// From the moment that an updater has a list of networks and the entries of
/// the deny list to the pause that follows, whatever fails, the deny list
/// becomes what the networks call for without what was missing and could not be
/// inserted, plus what it held that is always denied, could not be removed or
/// was not among the entries that could be read.
pub proof fn law_refresh_history_with_failures<T: DenyListClient>(
    updater: DenyListStateUpdater<T>,
    states: Seq<RunState>,
    events: Seq<RunEvent>,
    ok: Seq<bool>,
    contents: Seq<Set<u32>>,
    nodes: Vec<Ipv4Cidr>,
    entries: Vec<Option<u32>>,
    i: int,
    j: int,
    failures: Failures,
)
    requires
        is_history(updater, states, events, ok, contents),
        0 <= i < j < contents.len(),
        states[i] == RunState::List(nodes),
        events[i] == RunEvent::Entries(entries),
        forall|k: int|
            i < k < j ==> (#[trigger] states[k]) is Refresh && went(
                states[k].asks(),
                events[k],
                ok[k],
                contents[k],
                failures,
            ),
        states[j] == RunState::Sleep,
    ensures
        contents[j] == updater.dynamic_set(nodes@).difference(
            failures.insertions.difference(contents[i]),
        ).union(
            contents[i].filter(
                |a: u32|
                    updater.deny_set().contains(a) || failures.removals.contains(a)
                        || !entries@.contains(Some(a)),
            ),
        ),
{
    assert(updater.steps(states[i], events[i], states[i + 1]));
    assert(contents[i + 1] == effect(contents[i], states[i].asks(), ok[i]));
    let refresh = choose|refresh: RefreshView|
        updater.is_refresh(nodes@, entries@, refresh)
            && #[trigger] crate::updater::settles(refresh, states[i + 1]);
    law_refresh_with_failures(updater, nodes@, entries@, refresh, contents[i], failures);
    if i + 1 < j {
        assert(states[i + 1] is Refresh);
        lemma_refresh_history(updater, states, events, ok, contents, i + 1, j, failures);
    }
}

/// From the moment that an updater has a list of networks and the entries of
/// the deny list to the pause that follows, the deny list becomes what the
/// networks call for plus what it held that is always denied, if every action
/// goes well.
pub proof fn law_refresh_replaces_deny_list<T: DenyListClient>(
    updater: DenyListStateUpdater<T>,
    states: Seq<RunState>,
    events: Seq<RunEvent>,
    ok: Seq<bool>,
    contents: Seq<Set<u32>>,
    nodes: Vec<Ipv4Cidr>,
    entries: Vec<Option<u32>>,
    i: int,
    j: int,
)
    requires
        is_history(updater, states, events, ok, contents),
        0 <= i < j < contents.len(),
        states[i] == RunState::List(nodes),
        events[i] == RunEvent::Entries(entries),
        forall|a: u32| #[trigger] contents[i].contains(a) <==> entries@.contains(Some(a)),
        forall|k: int|
            i < k < j ==> (#[trigger] states[k]) is Refresh && went_well(
                states[k].asks(),
                events[k],
                ok[k],
                contents[k],
            ),
        states[j] == RunState::Sleep,
    ensures
        contents[j] == updater.dynamic_set(nodes@).union(
            contents[i].intersect(updater.deny_set()),
        ),
{
    law_refresh_history_with_failures(
        updater,
        states,
        events,
        ok,
        contents,
        nodes,
        entries,
        i,
        j,
        Failures::none(),
    );
    assert(contents[j] =~= updater.dynamic_set(nodes@).union(
        contents[i].intersect(updater.deny_set()),
    ));
}

/// A frame passes uncounted where the filter is off, where the frame is not
/// UDP over IPv4 or too short to tell, and where its port is not protected.
pub proof fn law_other_traffic_passes(
    cnc: Option<RuntimeControls>,
    data: Seq<u8>,
    tables: Tables,
)
    requires
        !crate::datapath::controls_in_force(cnc).global_enabled || !(crate::packet::headers_of(
            data,
        ) is Udp) || !tables.ports.contains(crate::packet::headers_of(data)->dest_port),
    ensures
        crate::datapath::outcome(cnc, data, tables) == (
            XdpAction::Pass,
            Seq::<(u32, StatType)>::empty(),
        ),
{
}

/// A frame is dropped exactly if it is counted as blocked, and nothing is
/// counted of a frame that is not first counted as such. All counts of a frame
/// go to its source address, and none is counted as QUIC 0-RTT.
pub proof fn law_counts_match_verdict(
    cnc: Option<RuntimeControls>,
    data: Seq<u8>,
    tables: Tables,
)
    ensures
        ({
            let (action, counts) = crate::datapath::outcome(cnc, data, tables);
            &&& action == XdpAction::Drop <==> exists|i: int|
                0 <= i < counts.len() && (#[trigger] counts[i]).1 == StatType::Blocked
            &&& counts.len() > 0 ==> counts[0].1 == StatType::All
            &&& forall|i: int|
                0 < i < counts.len() ==> (#[trigger] counts[i]).1 != StatType::All && counts[i].1
                    != StatType::ZeroRtt && counts[i].0 == counts[0].0
            &&& counts.len() > 0 ==> (crate::packet::headers_of(data) matches Headers::Udp {
                src_bytes,
                ..
            } && counts[0].0 == crate::network::address_of(src_bytes))
        }),
{
    let (action, counts) = crate::datapath::outcome(cnc, data, tables);
    if action == XdpAction::Drop {
        assert(counts[counts.len() - 1].1 == StatType::Blocked);
    }
}

/// The longest-prefix-match table that holds the entries of some networks
/// allows exactly the sources in one of them.
pub proof fn law_allow_list_is_union(
    networks: Seq<Ipv4Cidr>,
    tables: Tables,
    octets: [u8; 4],
)
    requires
        crate::network::all_wf(networks),
        forall|entry: LpmKey| #[trigger]
            tables.allowed.contains(entry) <==> exists|i: int|
                0 <= i < networks.len() && (#[trigger] networks[i]).key() == entry,
    ensures
        tables.allows(octets) <==> crate::ranges::union_of(networks).contains(
            crate::network::address_of(octets),
        ),
{
    let address = crate::network::address_of(octets);
    if tables.allows(octets) {
        let entry = choose|entry: LpmKey|
            #[trigger] tables.allowed.contains(entry) && entry.prefix_len <= 32
                && crate::network::lpm_matches(entry, octets);
        let i = choose|i: int| 0 <= i < networks.len() && (#[trigger] networks[i]).key() == entry;
        crate::network::law_lpm_entry_is_network(networks[i], octets);
        assert(networks[i].covers(address));
    }
    if crate::ranges::union_of(networks).contains(address) {
        let i = choose|i: int| 0 <= i < networks.len() && (#[trigger] networks[i]).covers(address);
        crate::network::law_lpm_entry_is_network(networks[i], octets);
        assert(tables.allowed.contains(networks[i].key()));
    }
}

/// A source that is always allowed gets through, close to the leader slot and
/// far from it: it does, as long as the deny list holds no such address and
/// the allow list has an entry for each network.
pub proof fn law_static_allow_passes(
    networks: Seq<Ipv4Cidr>,
    cnc: Option<RuntimeControls>,
    data: Seq<u8>,
    tables: Tables,
)
    requires
        crate::network::all_wf(networks),
        tables.denied.disjoint(crate::ranges::union_of(networks)),
        forall|i: int|
            0 <= i < networks.len() ==> tables.allowed.contains((#[trigger] networks[i]).key()),
        crate::packet::headers_of(data) matches Headers::Udp { src_bytes, .. }
            && crate::ranges::union_of(networks).contains(crate::network::address_of(src_bytes)),
    ensures
        crate::datapath::outcome(cnc, data, tables).0 == XdpAction::Pass,
{
    let src_bytes = crate::packet::headers_of(data)->src_bytes;
    let address = crate::network::address_of(src_bytes);
    let i = choose|i: int| 0 <= i < networks.len() && (#[trigger] networks[i]).covers(address);
    crate::network::law_lpm_entry_is_network(networks[i], src_bytes);
    assert(tables.allowed.contains(networks[i].key()));
    assert(tables.allows(src_bytes));
    assert(!tables.denied.contains(address));
}

/// Close to the leader slot, a source in the deny list does not reach a
/// protected port; far from it, no source outside the allow list does.
pub proof fn law_unwanted_is_dropped(
    cnc: Option<RuntimeControls>,
    data: Seq<u8>,
    tables: Tables,
)
    requires
        crate::datapath::controls_in_force(cnc).global_enabled,
        crate::packet::headers_of(data) matches Headers::Udp { src_bytes, dest_port }
            && tables.ports.contains(dest_port) && (if crate::datapath::controls_in_force(
            cnc,
        ).close_to_leader {
            tables.denied.contains(crate::network::address_of(src_bytes))
        } else {
            !tables.allows(src_bytes)
        }),
    ensures
        crate::datapath::outcome(cnc, data, tables).0 == XdpAction::Drop,
{
}

/// Once seeding has covered all of the static networks, close to the leader
/// slot no source that some static network denies and none allows reaches a
/// protected port, however the actions of the updater go from then on.
pub proof fn law_static_deny_is_dropped<T: DenyListClient>(
    updater: DenyListStateUpdater<T>,
    states: Seq<RunState>,
    events: Seq<RunEvent>,
    ok: Seq<bool>,
    contents: Seq<Set<u32>>,
    seeded: int,
    now: int,
    cnc: Option<RuntimeControls>,
    data: Seq<u8>,
    tables: Tables,
)
    requires
        updater.wf(),
        is_history(updater, states, events, ok, contents),
        contents[0].disjoint(updater.allow_set()),
        0 < seeded <= now < contents.len(),
        forall|k: int|
            0 <= k < seeded ==> went_well(
                (#[trigger] states[k]).asks(),
                events[k],
                ok[k],
                contents[k],
            ),
        forall|k: int| 0 < k < seeded ==> (#[trigger] states[k]) is Seed || states[k] is Bind,
        states[seeded] matches RunState::SeedReport(_, truncated) && (!truncated || within_cap(
            updater,
        )),
        tables.denied == contents[now],
        crate::datapath::controls_in_force(cnc).global_enabled,
        crate::datapath::controls_in_force(cnc).close_to_leader,
        crate::packet::headers_of(data) matches Headers::Udp { src_bytes, dest_port }
            && tables.ports.contains(dest_port) && updater.deny_set().contains(
            crate::network::address_of(src_bytes),
        ) && !updater.allow_set().contains(crate::network::address_of(src_bytes)),
    ensures
        crate::datapath::outcome(cnc, data, tables).0 == XdpAction::Drop,
{
    let address = crate::network::address_of(crate::packet::headers_of(data)->src_bytes);
    law_seeding_fills_deny_list(updater, states, events, ok, contents, seeded);
    assert(updater.deny_set().difference(updater.allow_set()).contains(address));
    assert(contents[seeded].contains(address));
    law_history_respects_overrides(updater, states, events, ok, contents, seeded, now);
    assert(contents[seeded].intersect(updater.deny_set()).contains(address));
    assert(contents[now].contains(address));
    law_unwanted_is_dropped(cnc, data, tables);
}

/// The table after packets were counted, in order.
pub open spec fn counted_all(
    table: Map<u32, ConnectionStats>,
    room: bool,
    counts: Seq<(u32, StatType)>,
) -> Map<u32, ConnectionStats>
    decreases counts.len(),
{
    if counts.len() == 0 {
        table
    } else {
        crate::stats::counted(
            counted_all(table, room, counts.drop_last()),
            room,
            counts.last().0,
            counts.last().1,
        )
    }
}

/// Of each address, no count exceeds the count of all its packets.
pub open spec fn counts_consistent(table: Map<u32, ConnectionStats>) -> bool {
    forall|address: u32| #[trigger]
        table.dom().contains(address) ==> {
            &&& table[address].blocked_pkt_count <= table[address].pkt_count
            &&& table[address].far_from_leader_pkt_count <= table[address].pkt_count
            &&& table[address].zero_rtt_pkt_count <= table[address].pkt_count
        }
}

/// Counting a packet of one address adds one to the count of that type and
/// leaves its other counts alone; where the address has no entry and there is
/// no room for one, nothing changes. Other addresses are not affected.
pub proof fn law_counting_is_local(
    table: Map<u32, ConnectionStats>,
    room: bool,
    address: u32,
    stat_type: StatType,
    other_address: u32,
    other_type: StatType,
)
    requires
        table.dom().contains(address) ==> table[address].count(stat_type) < u64::MAX,
    ensures
        ({
            let after = crate::stats::counted(table, room, address, stat_type);
            let before = if table.dom().contains(address) {
                table[address]
            } else {
                ConnectionStats::zero()
            };
            &&& after.dom().contains(address) <==> table.dom().contains(address) || room
            &&& after.dom().contains(address) ==> after[address].count(stat_type) == before.count(
                stat_type,
            ) + 1
            &&& after.dom().contains(address) && other_type != stat_type
                ==> after[address].count(other_type) == before.count(other_type)
            &&& other_address != address ==> after.dom().contains(other_address)
                == table.dom().contains(other_address) && (table.dom().contains(other_address)
                ==> after[other_address] == table[other_address])
        }),
{
}

/// The record of an address, with every count zero where it has none.
pub open spec fn record_of(table: Map<u32, ConnectionStats>, address: u32) -> ConnectionStats {
    if table.dom().contains(address) {
        table[address]
    } else {
        ConnectionStats::zero()
    }
}

/// What counting a frame does to the table. Its source, if anything is counted
/// of the frame and there is an entry or room for one, has one packet more, one
/// more far from the leader slot where that is far, one more blocked where the
/// frame is dropped, and as many QUIC 0-RTT as before. All other addresses keep
/// what they had.
pub proof fn law_frame_is_counted_exactly(
    cnc: Option<RuntimeControls>,
    data: Seq<u8>,
    tables: Tables,
    table: Map<u32, ConnectionStats>,
    room: bool,
    address: u32,
)
    requires
        forall|i: int|
            0 <= i < crate::datapath::outcome(cnc, data, tables).1.len() && (
            #[trigger] crate::datapath::outcome(cnc, data, tables).1[i]).0 == address ==> record_of(
                table,
                address,
            ).count(crate::datapath::outcome(cnc, data, tables).1[i].1) < u64::MAX,
    ensures
        ({
            let (action, counts) = crate::datapath::outcome(cnc, data, tables);
            let after = counted_all(table, room, counts);
            let before = record_of(table, address);
            let far = !crate::datapath::controls_in_force(cnc).close_to_leader;
            if counts.len() > 0 && counts[0].0 == address {
                &&& after.dom().contains(address) <==> table.dom().contains(address) || room
                &&& after.dom().contains(address) ==> {
                    &&& after[address].pkt_count == before.pkt_count + 1
                    &&& after[address].far_from_leader_pkt_count
                        == before.far_from_leader_pkt_count + if far {
                        1int
                    } else {
                        0int
                    }
                    &&& after[address].blocked_pkt_count == before.blocked_pkt_count + if action
                        == XdpAction::Drop {
                        1int
                    } else {
                        0int
                    }
                    &&& after[address].zero_rtt_pkt_count == before.zero_rtt_pkt_count
                }
            } else {
                &&& after.dom().contains(address) <==> table.dom().contains(address)
                &&& table.dom().contains(address) ==> after[address] == table[address]
            }
        }),
{
    let counts = crate::datapath::outcome(cnc, data, tables).1;
    if counts.len() > 0 {
        let first = seq![(counts[0].0, StatType::All)];
        let second = (counts[0].0, StatType::FarFromLeader);
        let third = (counts[0].0, StatType::Blocked);
        reveal_with_fuel(counted_all, 4);
        assert(first.drop_last() =~= Seq::empty());
        assert(first.push(second).drop_last() =~= first);
        assert(first.push(third).drop_last() =~= first);
        assert(first.push(second).push(third).drop_last() =~= first.push(second));
        assert(counts =~= first || counts =~= first.push(second) || counts =~= first.push(third)
            || counts =~= first.push(second).push(third));
        assert(counts[counts.len() - 1] == counts.last());
        assert(counts.len() > 2 ==> counts[1] == second);
    }
}

/// Counting what a frame calls for keeps the counts consistent. No address
/// loses its entry, no count falls, and the count of QUIC 0-RTT stays what it
/// was, zero for an address that had no entry.
pub proof fn law_counts_stay_consistent(
    cnc: Option<RuntimeControls>,
    data: Seq<u8>,
    tables: Tables,
    table: Map<u32, ConnectionStats>,
    room: bool,
)
    requires
        counts_consistent(table),
        crate::datapath::outcome(cnc, data, tables).1.len() > 0 ==> record_of(
            table,
            crate::datapath::outcome(cnc, data, tables).1[0].0,
        ).pkt_count < u64::MAX,
    ensures
        ({
            let after = counted_all(table, room, crate::datapath::outcome(cnc, data, tables).1);
            &&& counts_consistent(after)
            &&& table.dom().subset_of(after.dom())
            &&& forall|address: u32, stat_type: StatType|
                after.dom().contains(address) ==> record_of(table, address).count(stat_type)
                    <= #[trigger] after[address].count(stat_type)
            &&& forall|address: u32| #[trigger]
                after.dom().contains(address) ==> after[address].zero_rtt_pkt_count == record_of(
                    table,
                    address,
                ).zero_rtt_pkt_count
        }),
{
    let after = counted_all(table, room, crate::datapath::outcome(cnc, data, tables).1);
    law_counts_match_verdict(cnc, data, tables);
    assert forall|address: u32|
        #![trigger after.dom().contains(address)]
        #![trigger after[address]]
        {
            &&& table.dom().contains(address) ==> after.dom().contains(address)
            &&& after.dom().contains(address) ==> {
                let before = record_of(table, address);
                &&& before.pkt_count <= after[address].pkt_count
                &&& before.blocked_pkt_count <= after[address].blocked_pkt_count
                &&& before.far_from_leader_pkt_count <= after[address].far_from_leader_pkt_count
                &&& before.zero_rtt_pkt_count == after[address].zero_rtt_pkt_count
                &&& after[address].blocked_pkt_count <= after[address].pkt_count
                &&& after[address].far_from_leader_pkt_count <= after[address].pkt_count
                &&& after[address].zero_rtt_pkt_count <= after[address].pkt_count
            }
        } by {
        law_frame_is_counted_exactly(cnc, data, tables, table, room, address);
    }
}

} // verus!
