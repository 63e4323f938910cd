//! What the updater of the deny list promises, said of the networks it was
//! given, the entries it was told of and the steps it takes.
use vstd::prelude::*;

use crate::deny_client::{DenyListClient, DenyListError};
use crate::laws::Failures;
use crate::network::Ipv4Cidr;
use crate::refresh::{RefreshRequest, RefreshView};
use crate::seeding::SeedProgress;
use crate::updater::{DenyListStateUpdater, RunAction, RunEvent, RunState, SeedStep};

verus! {

/// The addresses of two lists of networks, one after the other, are those of
/// the first followed by those of the second: no network of a list is left out.
pub proof fn law_expansion_follows_the_list(a: Seq<Ipv4Cidr>, b: Seq<Ipv4Cidr>)
    ensures
        crate::seeding::expanded(a + b) == crate::seeding::expanded(a) + crate::seeding::expanded(
            b,
        ),
        crate::seeding::expanded(Seq::empty()) == Seq::<u32>::empty(),
    decreases a.len(),
{
    if a.len() == 0 {
        assert(a + b =~= b);
        assert(crate::seeding::expanded(a + b) =~= crate::seeding::expanded(a)
            + crate::seeding::expanded(b));
    } else {
        law_expansion_follows_the_list(a.skip(1), b);
        assert((a + b).skip(1) =~= a.skip(1) + b);
        assert(crate::seeding::expanded(a + b) =~= crate::seeding::expanded(a)
            + crate::seeding::expanded(b));
    }
}

/// A single network is walked from its first address to its last, all
/// `2^(32 - length)` of them, in ascending order.
pub proof fn law_network_is_walked_whole(network: Ipv4Cidr)
    requires
        network.length() <= 32,
        network.first() as int % vstd::arithmetic::power2::pow2(
            (32 - network.length()) as nat,
        ) as int == 0,
    ensures
        crate::seeding::expanded(seq![network]).len() == vstd::arithmetic::power2::pow2(
            (32 - network.length()) as nat,
        ),
        forall|k: int|
            0 <= k < vstd::arithmetic::power2::pow2((32 - network.length()) as nat)
                ==> #[trigger] crate::seeding::expanded(seq![network])[k] == network.first() + k,
{
    crate::laws::lemma_network_addresses(network);
    assert(seq![network].skip(1) =~= Seq::empty());
    reveal_with_fuel(crate::seeding::expanded, 2);
    assert(crate::seeding::expanded(seq![network]) =~= crate::seeding::network_addresses(network));
}

/// Skipping the allowed addresses at the front skips some number of them.
proof fn lemma_skipped(addresses: Seq<u32>, allow: Set<u32>) -> (k: int)
    ensures
        0 <= k <= addresses.len(),
        crate::seeding::skip_allowed(addresses, allow) == addresses.skip(k),
        forall|j: int| 0 <= j < k ==> allow.contains(#[trigger] addresses[j]),
        k < addresses.len() ==> !allow.contains(addresses[k]),
    decreases addresses.len(),
{
    if addresses.len() > 0 && allow.contains(addresses[0]) {
        let rest = addresses.skip(1);
        let k = lemma_skipped(rest, allow);
        assert(rest.skip(k) =~= addresses.skip(k + 1));
        assert forall|j: int| 0 <= j < k + 1 implies allow.contains(#[trigger] addresses[j]) by {
            if j > 0 {
                assert(rest[j - 1] == addresses[j]);
            }
        }
        k + 1
    } else {
        assert(addresses.skip(0) =~= addresses);
        0
    }
}

/// The next step of seeding. Below the cap it inserts the first address still to
/// come that is not always allowed, and goes on with those behind it; it is done
/// only if there is none. At the cap it is done, and was cut short if there are
/// addresses still to come.
pub proof fn law_seeding_takes_the_next_address<T: DenyListClient>(
    updater: DenyListStateUpdater<T>,
    remaining: Seq<u32>,
    count: usize,
    step: SeedStep,
)
    requires
        updater.is_seed_step(remaining, count, step),
    ensures
        count >= 523264 ==> step == SeedStep::Done(count, remaining.len() > 0),
        count < 523264 && (forall|j: int|
            0 <= j < remaining.len() ==> updater.allow_set().contains(#[trigger] remaining[j]))
            ==> step == SeedStep::Done(count, false),
        forall|k: int|
            count < 523264 && 0 <= k < remaining.len() && !updater.allow_set().contains(
                #[trigger] remaining[k],
            ) && (forall|j: int|
                0 <= j < k ==> updater.allow_set().contains(#[trigger] remaining[j])) ==> (
            step matches SeedStep::Insert(address, next) && address == remaining[k]
                && next.inserted() == count && next.remaining(updater.deny_networks())
                == remaining.skip(k + 1)),
{
    let allow = updater.allow_set();
    let m = lemma_skipped(remaining, allow);
    assert forall|k: int|
        count < 523264 && 0 <= k < remaining.len() && !allow.contains(#[trigger] remaining[k]) && (
        forall|j: int| 0 <= j < k ==> allow.contains(#[trigger] remaining[j])) implies (
    step matches SeedStep::Insert(address, next) && address == remaining[k] && next.inserted()
        == count && next.remaining(updater.deny_networks()) == remaining.skip(k + 1)) by {
        if k < m {
            assert(allow.contains(remaining[k]));
        }
        if m < k {
            assert(allow.contains(remaining[m]));
        }
        assert(remaining.skip(k).skip(1) =~= remaining.skip(k + 1));
    }
}

/// Once the deny list is bound, seeding begins, with all addresses of the static
/// deny networks still to come and nothing inserted; it is seeding or its report
/// that comes next, whatever the networks are. Where binding fails, the updater
/// stops.
pub proof fn law_binding_leads_to_seeding<T: DenyListClient>(
    updater: DenyListStateUpdater<T>,
    ok: bool,
    next: RunState,
)
    requires
        updater.steps(RunState::Bind, RunEvent::Completed(ok), next),
    ensures
        !ok ==> next == RunState::Stop,
        ok ==> match next {
            RunState::Seed(address, progress) => updater.is_seed_step(
                crate::seeding::expanded(updater.deny_networks()),
                0,
                SeedStep::Insert(address, progress),
            ),
            RunState::SeedReport(count, truncated) => updater.is_seed_step(
                crate::seeding::expanded(updater.deny_networks()),
                0,
                SeedStep::Done(count, truncated),
            ),
            _ => false,
        },
{
}

/// After an insertion of seeding, which counts if it succeeded and not if it
/// failed, seeding goes on with the addresses still to come, or reports.
pub proof fn law_seeding_goes_on<T: DenyListClient>(
    updater: DenyListStateUpdater<T>,
    address: u32,
    progress: SeedProgress,
    ok: bool,
    next: RunState,
)
    requires
        updater.steps(RunState::Seed(address, progress), RunEvent::Completed(ok), next),
        progress.inserted() < 523264,
    ensures
        ({
            let count = (progress.inserted() + if ok {
                1int
            } else {
                0int
            }) as usize;
            match next {
                RunState::Seed(later, rest) => updater.is_seed_step(
                    progress.remaining(updater.deny_networks()),
                    count,
                    SeedStep::Insert(later, rest),
                ),
                RunState::SeedReport(inserted, truncated) => updater.is_seed_step(
                    progress.remaining(updater.deny_networks()),
                    count,
                    SeedStep::Done(inserted, truncated),
                ),
                _ => false,
            }
        }),
{
}

/// What an updater asks for in each of its states; the pause takes ten seconds.
pub proof fn law_states_ask_for_their_actions(
    address: u32,
    progress: SeedProgress,
    count: usize,
    truncated: bool,
    nodes: Vec<Ipv4Cidr>,
    refresh: crate::refresh::RefreshRun,
)
    ensures
        RunState::Bind.asks() == RunAction::Bind,
        RunState::Seed(address, progress).asks() == RunAction::Insert(address),
        RunState::SeedReport(count, truncated).asks() == RunAction::ReportSeed(count, truncated),
        RunState::CheckExit.asks() == RunAction::CheckExit,
        RunState::Fetch.asks() == RunAction::Fetch,
        RunState::List(nodes).asks() == RunAction::ListEntries,
        RunState::Sleep.asks() == RunAction::Sleep(10),
        RunState::Stop.asks() == RunAction::Stop,
        refresh@.removals.len() > 0 ==> RunState::Refresh(refresh).asks() == RunAction::Remove(
            refresh@.removals[0],
        ),
        refresh@.removals.len() == 0 && refresh@.checks.len() > 0 && !refresh@.inserting
            ==> RunState::Refresh(refresh).asks() == RunAction::Lookup(refresh@.checks[0]),
        refresh@.removals.len() == 0 && refresh@.checks.len() > 0 && refresh@.inserting
            ==> RunState::Refresh(refresh).asks() == RunAction::Insert(refresh@.checks[0]),
        refresh@.removals.len() == 0 && refresh@.checks.len() == 0 ==> RunState::Refresh(
            refresh,
        ).asks() == RunAction::Sleep(10),
{
}

/// An updater stops only where binding fails or where it reads an exit flag that
/// is set, and then for good.
pub proof fn law_only_exit_stops<T: DenyListClient>(
    updater: DenyListStateUpdater<T>,
    state: RunState,
    event: RunEvent,
    next: RunState,
)
    requires
        updater.steps(state, event, next),
    ensures
        next == RunState::Stop <==> state == RunState::Stop || (state == RunState::Bind && event
            == RunEvent::Completed(false)) || (state == RunState::CheckExit && event
            == RunEvent::Exit(true)),
{
}

/// After a failed fetch, whatever the error, an updater pauses, reads the exit
/// flag and, if that is not set, fetches again.
pub proof fn law_failed_fetch_is_survived<T: DenyListClient>(
    updater: DenyListStateUpdater<T>,
    error: DenyListError,
    paused: bool,
    s1: RunState,
    s2: RunState,
    s3: RunState,
)
    requires
        updater.steps(RunState::Fetch, RunEvent::Fetched(Err(error)), s1),
        updater.steps(s1, RunEvent::Completed(paused), s2),
        updater.steps(s2, RunEvent::Exit(false), s3),
    ensures
        s1.asks() == RunAction::Sleep(10),
        s2.asks() == RunAction::CheckExit,
        s3.asks() == RunAction::Fetch,
{
}

/// The round that an updater goes: the report of seeding and the pause lead to
/// the exit flag, the exit flag to the next fetch or to the end, and a list that
/// was fetched, whole, to the entries of the deny list that it is held against.
pub proof fn law_updater_goes_round<T: DenyListClient>(
    updater: DenyListStateUpdater<T>,
    count: usize,
    truncated: bool,
    done: bool,
    nodes: Vec<Ipv4Cidr>,
    next: RunState,
)
    ensures
        updater.steps(RunState::SeedReport(count, truncated), RunEvent::Completed(done), next)
            ==> next == RunState::CheckExit,
        updater.steps(RunState::Sleep, RunEvent::Completed(done), next) ==> next
            == RunState::CheckExit,
        updater.steps(RunState::CheckExit, RunEvent::Exit(true), next) ==> next == RunState::Stop,
        updater.steps(RunState::CheckExit, RunEvent::Exit(false), next) ==> next == RunState::Fetch,
        updater.steps(RunState::Fetch, RunEvent::Fetched(Ok(nodes)), next) ==> next
            == RunState::List(nodes),
{
}

/// An event that does not answer what an updater asks for changes nothing.
pub proof fn law_stray_events_change_nothing<T: DenyListClient>(
    updater: DenyListStateUpdater<T>,
    state: RunState,
    event: RunEvent,
    next: RunState,
)
    requires
        updater.steps(state, event, next),
        match state {
            RunState::CheckExit => !(event is Exit),
            RunState::Fetch => !(event is Fetched),
            RunState::List(_) => !(event is Entries),
            RunState::Stop => true,
            _ => !(event is Completed),
        },
    ensures
        next == state,
{
}

/// What a refresh is to do: check the address of every fetched network, unless
/// it is always allowed, each once; and remove the entries whose address no
/// fetched network covers, or is always allowed, unless it is always denied, in
/// the order of the entries.
pub proof fn law_refresh_heeds_every_network<T: DenyListClient>(
    updater: DenyListStateUpdater<T>,
    nodes: Seq<Ipv4Cidr>,
    entries: Seq<Option<u32>>,
    refresh: RefreshView,
    address: u32,
)
    requires
        updater.is_refresh(nodes, entries, refresh),
    ensures
        ({
            let called_for = !updater.allow_set().contains(address) && exists|i: int|
                0 <= i < nodes.len() && (#[trigger] nodes[i]).first() <= address < nodes[i].first()
                    + vstd::arithmetic::power2::pow2((32 - nodes[i].length()) as nat);
            &&& refresh.checks.contains(address) <==> called_for
            &&& refresh.removals.contains(address) <==> entries.contains(Some(address))
                && !called_for && !updater.deny_set().contains(address)
        }),
        forall|i: int, j: int|
            0 <= i < j < refresh.checks.len() ==> refresh.checks[i] != refresh.checks[j],
        refresh.removals == crate::refresh::stale(
            entries,
            refresh.checks.to_set(),
            updater.deny_set(),
        ),
        !refresh.inserting,
{
    crate::guarantees::law_union_holds_every_network(nodes, address);
    crate::laws::lemma_stale(entries, updater.dynamic_set(nodes), updater.deny_set());
    assert(refresh.checks.contains(address) <==> refresh.checks.to_set().contains(address));
}

/// Which entries a refresh removes is decided of each entry by itself, and in
/// their order: two lists of entries, one after the other, call for what the
/// first calls for followed by what the second does. A single entry is removed
/// if it could be read and its address is neither wanted nor exempt.
pub proof fn law_entries_are_judged_one_by_one(
    a: Seq<Option<u32>>,
    b: Seq<Option<u32>>,
    wanted: Set<u32>,
    exempt: Set<u32>,
    address: u32,
)
    ensures
        crate::refresh::stale(a + b, wanted, exempt) == crate::refresh::stale(a, wanted, exempt)
            + crate::refresh::stale(b, wanted, exempt),
        crate::refresh::stale(Seq::empty(), wanted, exempt) == Seq::<u32>::empty(),
        crate::refresh::stale(seq![None], wanted, exempt) == Seq::<u32>::empty(),
        crate::refresh::stale(seq![Some(address)], wanted, exempt) == if wanted.contains(address)
            || exempt.contains(address) {
            Seq::<u32>::empty()
        } else {
            seq![address]
        },
    decreases b.len(),
{
    let empty = Seq::<Option<u32>>::empty();
    let none: Seq<Option<u32>> = seq![None];
    let one = seq![Some(address)];
    assert(none.drop_last() =~= empty);
    assert(one.drop_last() =~= empty);
    reveal_with_fuel(crate::refresh::stale, 2);
    assert(crate::refresh::stale(empty, wanted, exempt) =~= Seq::<u32>::empty());
    assert(crate::refresh::stale(one, wanted, exempt) =~= if wanted.contains(address)
        || exempt.contains(address) {
        Seq::<u32>::empty()
    } else {
        seq![address]
    });
    if b.len() == 0 {
        assert(a + b =~= a);
    } else {
        law_entries_are_judged_one_by_one(a, b.drop_last(), wanted, exempt, address);
        assert((a + b).drop_last() =~= a + b.drop_last());
        assert((a + b).last() == b.last());
    }
    assert(crate::refresh::stale(a + b, wanted, exempt) =~= crate::refresh::stale(
        a,
        wanted,
        exempt,
    ) + crate::refresh::stale(b, wanted, exempt));
}

/// How a refresh goes on. The removals come first, one after the other, however
/// they go. Then each address is looked up: one that is there is done with, one
/// that is not is inserted, and is done with however that goes.
pub proof fn law_refresh_goes_on(refresh: RefreshView, ok: bool)
    ensures
        refresh.removals.len() > 0 ==> refresh.asks() == RefreshRequest::Remove(
            refresh.removals[0],
        ) && refresh.after(ok).removals == refresh.removals.skip(1) && refresh.after(ok).checks
            == refresh.checks && refresh.after(ok).inserting == refresh.inserting,
        refresh.removals.len() == 0 && refresh.checks.len() > 0 && !refresh.inserting
            ==> refresh.asks() == RefreshRequest::Lookup(refresh.checks[0]) && refresh.after(
            ok,
        ).removals == refresh.removals && refresh.after(ok).checks == (if ok {
            refresh.checks.skip(1)
        } else {
            refresh.checks
        }) && refresh.after(ok).inserting == !ok,
        refresh.removals.len() == 0 && refresh.checks.len() > 0 && refresh.inserting
            ==> refresh.asks() == RefreshRequest::Insert(refresh.checks[0]) && refresh.after(
            ok,
        ).removals == refresh.removals && refresh.after(ok).checks == refresh.checks.skip(1)
            && !refresh.after(ok).inserting,
        refresh.removals.len() == 0 && refresh.checks.len() == 0 ==> refresh.asks()
            == RefreshRequest::Done && refresh.after(ok) == refresh,
{
}

/// Told the entries of the deny list, an updater sets out on a refresh that
/// heeds every fetched network, or pauses at once where there is nothing to
/// remove and nothing to check.
pub proof fn law_entries_lead_to_refresh<T: DenyListClient>(
    updater: DenyListStateUpdater<T>,
    nodes: Vec<Ipv4Cidr>,
    entries: Vec<Option<u32>>,
    next: RunState,
    address: u32,
)
    requires
        updater.steps(RunState::List(nodes), RunEvent::Entries(entries), next),
    ensures
        ({
            let called_for = !updater.allow_set().contains(address) && exists|i: int|
                0 <= i < nodes@.len() && (#[trigger] nodes@[i]).first() <= address
                    < nodes@[i].first() + vstd::arithmetic::power2::pow2(
                    (32 - nodes@[i].length()) as nat,
                );
            let stale = entries@.contains(Some(address)) && !called_for
                && !updater.deny_set().contains(address);
            match next {
                RunState::Refresh(run) => {
                    &&& run@.checks.contains(address) <==> called_for
                    &&& run@.removals.contains(address) <==> stale
                    &&& !run@.inserting
                    &&& run@.checks.len() > 0 || run@.removals.len() > 0
                },
                RunState::Sleep => !called_for && !stale,
                _ => false,
            }
        }),
{
    let refresh = choose|refresh: RefreshView|
        updater.is_refresh(nodes@, entries@, refresh) && #[trigger] crate::updater::settles(
            refresh,
            next,
        );
    law_refresh_heeds_every_network(updater, nodes@, entries@, refresh, address);
}

/// After an operation of a refresh comes the next one, if there is something
/// left to remove or to check, and otherwise the pause.
pub proof fn law_refresh_leads_to_pause<T: DenyListClient>(
    updater: DenyListStateUpdater<T>,
    run: crate::refresh::RefreshRun,
    ok: bool,
    next: RunState,
)
    requires
        updater.steps(RunState::Refresh(run), RunEvent::Completed(ok), next),
    ensures
        run@.after(ok).removals.len() == 0 && run@.after(ok).checks.len() == 0 ==> next
            == RunState::Sleep,
        run@.after(ok).removals.len() > 0 || run@.after(ok).checks.len() > 0 ==> (
        next matches RunState::Refresh(later) && later@ == run@.after(ok)),
{
}

/// Each address of each fetched network that is not always allowed is in the
/// deny list after a refresh of which every operation succeeds.
pub proof fn law_every_fetched_network_is_denied<T: DenyListClient>(
    updater: DenyListStateUpdater<T>,
    nodes: Seq<Ipv4Cidr>,
    entries: Seq<Option<u32>>,
    refresh: RefreshView,
    table: Set<u32>,
    i: int,
    address: u32,
)
    requires
        updater.is_refresh(nodes, entries, refresh),
        0 <= i < nodes.len(),
        nodes[i].first() <= address < nodes[i].first() + vstd::arithmetic::power2::pow2(
            (32 - nodes[i].length()) as nat,
        ),
        !updater.allow_set().contains(address),
    ensures
        crate::laws::refreshed(refresh, table, Failures::none()).contains(address),
{
    law_refresh_heeds_every_network(updater, nodes, entries, refresh, address);
    crate::laws::lemma_refreshed(refresh, table, Failures::none());
}

/// What the deny list holds after a refresh, address by address and whatever
/// fails. An address that some fetched network covers and that is not always
/// allowed is in it, unless it was missing and could not be inserted. Any other
/// is in it only if it was before, and is always denied, could not be removed,
/// or was not among the entries that could be read.
pub proof fn law_refresh_address_by_address<T: DenyListClient>(
    updater: DenyListStateUpdater<T>,
    nodes: Seq<Ipv4Cidr>,
    entries: Seq<Option<u32>>,
    refresh: RefreshView,
    table: Set<u32>,
    failures: Failures,
    address: u32,
)
    requires
        updater.is_refresh(nodes, entries, refresh),
    ensures
        crate::laws::refreshed(refresh, table, failures).contains(address) <==> if (exists|i: int|
            0 <= i < nodes.len() && (#[trigger] nodes[i]).first() <= address < nodes[i].first()
                + vstd::arithmetic::power2::pow2((32 - nodes[i].length()) as nat))
            && !updater.allow_set().contains(address) {
            table.contains(address) || !failures.insertions.contains(address)
        } else {
            table.contains(address) && (updater.deny_set().contains(address)
                || failures.removals.contains(address) || !entries.contains(Some(address)))
        },
{
    law_refresh_heeds_every_network(updater, nodes, entries, refresh, address);
    crate::laws::lemma_refreshed(refresh, table, failures);
}

/// Up to the first fetch, an updater binds, seeds, reports and reads the exit
/// flag, and has got beyond the report with the address in the deny list.
spec fn seeds_first<T: DenyListClient>(
    updater: DenyListStateUpdater<T>,
    state: RunState,
    table: Set<u32>,
    address: u32,
) -> bool {
    match state {
        RunState::Bind => true,
        RunState::Seed(_, _) => crate::laws::seeding_covers(updater, state, table, address),
        RunState::SeedReport(_, _) => table.contains(address),
        RunState::CheckExit => table.contains(address),
        RunState::Fetch => table.contains(address),
        RunState::Stop => true,
        _ => false,
    }
}

proof fn lemma_seeds_first<T: DenyListClient>(
    updater: DenyListStateUpdater<T>,
    states: Seq<RunState>,
    events: Seq<RunEvent>,
    ok: Seq<bool>,
    contents: Seq<Set<u32>>,
    j: int,
    address: u32,
)
    requires
        updater.wf(),
        crate::laws::is_history(updater, states, events, ok, contents),
        0 <= j < states.len(),
        forall|k: int| 0 <= k < j ==> !((#[trigger] states[k]) is Fetch),
        forall|k: int|
            0 <= k < j ==> crate::laws::went_well(
                (#[trigger] states[k]).asks(),
                events[k],
                ok[k],
                contents[k],
            ),
        crate::laws::within_cap(updater),
        updater.deny_set().contains(address),
        !updater.allow_set().contains(address),
    ensures
        seeds_first(updater, states[j], contents[j], address),
    decreases j,
{
    if j > 0 {
        let k = j - 1;
        lemma_seeds_first(updater, states, events, ok, contents, k, address);
        assert(updater.steps(states[k], events[k], states[k + 1]));
        assert(contents[k + 1] == crate::laws::effect(contents[k], states[k].asks(), ok[k]));
        assert(crate::laws::went_well(states[k].asks(), events[k], ok[k], contents[k]));
        assert(!(states[k] is Fetch));
        match (states[k], events[k]) {
            (RunState::Bind, RunEvent::Completed(true)) => {
                let all = crate::seeding::expanded(updater.deny_networks());
                crate::laws::lemma_expanded(updater.deny_networks());
                assert(all.contains(address));
                crate::laws::lemma_seeds_cover(updater, all, 0, states[j], contents[j], address);
            },
            (RunState::Seed(_, progress), _) => {
                crate::laws::lemma_seeds_cover(
                    updater,
                    progress.remaining(updater.deny_networks()),
                    crate::seeding::noted_count(progress.inserted(), ok[k]),
                    states[j],
                    contents[j],
                    address,
                );
            },
            _ => {},
        }
    }
}

/// When an updater first fetches, or first reads the exit flag, the deny list
/// holds every address that some static network denies and none allows, if no
/// more are to be inserted than the cap leaves room for and every insertion went
/// well.
pub proof fn law_first_fetch_finds_static_denials<T: DenyListClient>(
    updater: DenyListStateUpdater<T>,
    states: Seq<RunState>,
    events: Seq<RunEvent>,
    ok: Seq<bool>,
    contents: Seq<Set<u32>>,
    j: int,
    i: int,
    address: u32,
)
    requires
        updater.wf(),
        crate::laws::is_history(updater, states, events, ok, contents),
        0 <= j < states.len(),
        states[j] == RunState::Fetch || states[j] == RunState::CheckExit,
        forall|k: int| 0 <= k < j ==> !((#[trigger] states[k]) is Fetch),
        forall|k: int|
            0 <= k < j ==> crate::laws::went_well(
                (#[trigger] states[k]).asks(),
                events[k],
                ok[k],
                contents[k],
            ),
        crate::laws::not_allowed(
            crate::seeding::expanded(updater.deny_networks()),
            updater.allow_set(),
        ).len() <= 523264,
        0 <= i < updater.deny_networks().len(),
        updater.deny_networks()[i].first() <= address < updater.deny_networks()[i].first()
            + vstd::arithmetic::power2::pow2((32 - updater.deny_networks()[i].length()) as nat),
        !updater.allow_set().contains(address),
    ensures
        contents[j].contains(address),
{
    crate::guarantees::law_union_holds_every_network(updater.deny_networks(), address);
    lemma_seeds_first(updater, states, events, ok, contents, j, address);
}

/// An updater reads the exit flag for the first time right after the report of
/// a finished seeding, and does nothing but bind, seed and report before.
pub proof fn law_seeding_comes_first<T: DenyListClient>(
    updater: DenyListStateUpdater<T>,
    states: Seq<RunState>,
    events: Seq<RunEvent>,
    ok: Seq<bool>,
    contents: Seq<Set<u32>>,
    j: int,
)
    requires
        crate::laws::is_history(updater, states, events, ok, contents),
        0 <= j < states.len(),
        forall|k: int| 0 <= k < j ==> !((#[trigger] states[k]) is CheckExit),
    ensures
        states[j] is Bind || states[j] is Seed || states[j] is SeedReport || states[j] is Stop
            || states[j] is CheckExit,
        states[j] is CheckExit ==> j > 0 && states[j - 1] is SeedReport,
        states[j] is SeedReport ==> j > 0 && (states[j - 1] is Bind || states[j - 1] is Seed
            || states[j - 1] is SeedReport),
        states[j] is Stop ==> j > 0 && (states[j - 1] is Bind || states[j - 1] is Stop),
    decreases j,
{
    if j > 0 {
        let k = j - 1;
        law_seeding_comes_first(updater, states, events, ok, contents, k);
        assert(updater.steps(states[k], events[k], states[k + 1]));
        assert(!(states[k] is CheckExit));
    }
}

/// Of two lists of addresses, one after the other, those that are not allowed
/// are those of the first followed by those of the second; a single address is
/// among them exactly if it is not allowed.
pub proof fn law_addresses_are_judged_one_by_one(
    a: Seq<u32>,
    b: Seq<u32>,
    allow: Set<u32>,
    address: u32,
)
    ensures
        crate::laws::not_allowed(a + b, allow) == crate::laws::not_allowed(a, allow)
            + crate::laws::not_allowed(b, allow),
        crate::laws::not_allowed(seq![address], allow) == if allow.contains(address) {
            Seq::<u32>::empty()
        } else {
            seq![address]
        },
    decreases a.len(),
{
    assert(seq![address].skip(1) =~= Seq::empty());
    reveal_with_fuel(crate::laws::not_allowed, 2);
    assert(crate::laws::not_allowed(seq![address], allow) =~= if allow.contains(address) {
        Seq::<u32>::empty()
    } else {
        seq![address]
    });
    if a.len() == 0 {
        assert(a + b =~= b);
    } else {
        law_addresses_are_judged_one_by_one(a.skip(1), b, allow, address);
        assert((a + b).skip(1) =~= a.skip(1) + b);
    }
    assert(crate::laws::not_allowed(a + b, allow) =~= crate::laws::not_allowed(a, allow)
        + crate::laws::not_allowed(b, allow));
}

} // verus!
