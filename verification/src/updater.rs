//! Keeping the deny list in the kernel up to date.
//!
//! The list itself is reached by system calls, and the deny-list source by
//! whatever its client does. [`DenyListStateUpdater::run`] therefore only
//! decides: from the state it is in and what has just happened to the next
//! state, which asks for the next thing to be done.
use rangemap::RangeInclusiveSet;
use std::collections::HashSet;
use std::sync::Arc;
use vstd::prelude::*;

use crate::deny_client::{DenyListClient, DenyListError, DenyListService};
use crate::network::Ipv4Cidr;
use crate::overrides::StaticOverrides;
use crate::ranges::{range_set_contains, ranges_of};
use crate::refresh::{
    addresses_of, stale_entries, walked, RefreshRequest, RefreshRun, RefreshView,
};
use crate::seeding::{SeedNext, SeedProgress, DENY_LIST_CAP};

verus! {

broadcast use vstd::std_specs::hash::group_hash_axioms;

/// How many seconds pass between two requests for a fresh deny list.
pub const POLL_INTERVAL_SECS: u64 = 10;

/// The static lists, and the service that the dynamic deny list comes from.
pub struct DenyListStateUpdater<T: DenyListClient> {
    deny_service: Arc<DenyListService<T>>,
    static_allow_ranges: RangeInclusiveSet<u32>,
    static_deny_ranges: RangeInclusiveSet<u32>,
    static_deny_cidrs: Vec<Ipv4Cidr>,
}

/// What the next thing to do in seeding is.
#[derive(Debug)]
pub enum SeedStep {
    /// Insert the address, then go on from the progress.
    Insert(u32, SeedProgress),
    /// Seeding is over: how many were inserted, and whether the cap cut it
    /// short.
    Done(usize, bool),
}

/// What an updater is waiting for.
#[derive(Debug)]
pub enum RunState {
    /// The deny list to be bound.
    Bind,
    /// A static address to be inserted.
    Seed(u32, SeedProgress),
    /// The outcome of seeding to be reported.
    SeedReport(usize, bool),
    /// Word whether to exit.
    CheckExit,
    /// A fresh list of denied networks.
    Fetch,
    /// The entries of the deny list, to hold against these networks.
    List(Vec<Ipv4Cidr>),
    /// A table operation of a refresh.
    Refresh(RefreshRun),
    /// The pause between two refreshes to end.
    Sleep,
    /// Nothing any more.
    Stop,
}

/// What an updater asks for.
#[derive(Clone, Copy, Debug, PartialEq, Eq)]
pub enum RunAction {
    /// Bind the deny list; answered by whether that worked.
    Bind,
    /// Put the address into the deny list; answered by whether that worked.
    Insert(u32),
    /// Take the address out of the deny list; answered by whether that worked.
    Remove(u32),
    /// Look the address up in the deny list; answered by whether it is there.
    Lookup(u32),
    /// Report how many static addresses were inserted and whether the cap cut
    /// that short.
    ReportSeed(usize, bool),
    /// Read the exit flag.
    CheckExit,
    /// Ask the deny-list service.
    Fetch,
    /// Read all entries of the deny list.
    ListEntries,
    /// Wait for this many seconds.
    Sleep(u64),
    /// Stop.
    Stop,
}

/// What has happened.
#[derive(Debug)]
pub enum RunEvent {
    /// The action was carried out, with success or without.
    Completed(bool),
    /// The exit flag was read.
    Exit(bool),
    /// The deny-list service has answered.
    Fetched(Result<Vec<Ipv4Cidr>, DenyListError>),
    /// The entries of the deny list; none in place of one that could not be
    /// read.
    Entries(Vec<Option<u32>>),
}

impl RunState {
    /// What the state asks for.
    pub open spec fn asks(self) -> RunAction {
        match self {
            RunState::Bind => RunAction::Bind,
            RunState::Seed(address, _) => RunAction::Insert(address),
            RunState::SeedReport(count, truncated) => RunAction::ReportSeed(count, truncated),
            RunState::CheckExit => RunAction::CheckExit,
            RunState::Fetch => RunAction::Fetch,
            RunState::List(_) => RunAction::ListEntries,
            RunState::Refresh(refresh) => match refresh@.asks() {
                RefreshRequest::Remove(address) => RunAction::Remove(address),
                RefreshRequest::Lookup(address) => RunAction::Lookup(address),
                RefreshRequest::Insert(address) => RunAction::Insert(address),
                RefreshRequest::Done => RunAction::Sleep(POLL_INTERVAL_SECS),
            },
            RunState::Sleep => RunAction::Sleep(POLL_INTERVAL_SECS),
            RunState::Stop => RunAction::Stop,
        }
    }

    /// What the state asks for.
    pub fn action(&self) -> (r: RunAction)
        ensures
            r == self.asks(),
    {
        match self {
            RunState::Bind => RunAction::Bind,
            RunState::Seed(address, _) => RunAction::Insert(*address),
            RunState::SeedReport(count, truncated) => RunAction::ReportSeed(*count, *truncated),
            RunState::CheckExit => RunAction::CheckExit,
            RunState::Fetch => RunAction::Fetch,
            RunState::List(_) => RunAction::ListEntries,
            RunState::Refresh(refresh) => match refresh.request() {
                RefreshRequest::Remove(address) => RunAction::Remove(address),
                RefreshRequest::Lookup(address) => RunAction::Lookup(address),
                RefreshRequest::Insert(address) => RunAction::Insert(address),
                RefreshRequest::Done => RunAction::Sleep(POLL_INTERVAL_SECS),
            },
            RunState::Sleep => RunAction::Sleep(POLL_INTERVAL_SECS),
            RunState::Stop => RunAction::Stop,
        }
    }
}

/// The state stands for a refresh: over, it leads into the pause.
pub open spec fn settles(refresh: RefreshView, state: RunState) -> bool {
    if refresh.asks() == RefreshRequest::Done {
        state == RunState::Sleep
    } else {
        state matches RunState::Refresh(run) && run@ == refresh
    }
}

/// The state that stands for a refresh.
fn settle(refresh: RefreshRun) -> (r: RunState)
    ensures
        settles(refresh@, r),
{
    match refresh.request() {
        RefreshRequest::Done => RunState::Sleep,
        _ => RunState::Refresh(refresh),
    }
}

impl<T: DenyListClient> DenyListStateUpdater<T> {
    /// The service that the dynamic deny list comes from.
    pub closed spec fn service(self) -> DenyListService<T> {
        *self.deny_service
    }

    /// The addresses that are always allowed.
    pub closed spec fn allow_set(self) -> Set<u32> {
        crate::ranges::covered(self.static_allow_ranges)
    }

    /// The addresses that are always denied.
    pub closed spec fn deny_set(self) -> Set<u32> {
        crate::ranges::covered(self.static_deny_ranges)
    }

    /// The networks that are always denied.
    pub closed spec fn deny_networks(self) -> Seq<Ipv4Cidr> {
        self.static_deny_cidrs@
    }

    /// The networks that are always denied are networks, each listed once,
    /// and the addresses that are always denied are theirs.
    pub open spec fn wf(self) -> bool {
        &&& self.deny_networks().no_duplicates()
        &&& crate::network::all_wf(self.deny_networks())
        &&& self.deny_set() == crate::ranges::union_of(self.deny_networks())
    }

    #[verifier::type_invariant]
    spec fn inv(self) -> bool {
        self.wf()
    }

    /// An updater for these static lists and this service.
    pub fn new(
        deny_service: Arc<DenyListService<T>>,
        static_overrides: &StaticOverrides,
    ) -> (r: Self)
        ensures
            r.wf(),
            r.service() == *deny_service,
            r.allow_set() == crate::ranges::union_of(static_overrides.allow_list()),
            r.deny_set() == crate::ranges::union_of(static_overrides.deny_list()),
            r.deny_networks() == static_overrides.deny_list(),
    {
        let static_deny_cidrs: Vec<Ipv4Cidr> = static_overrides.denied().clone();
        assert(static_deny_cidrs@ =~= static_overrides.deny_list());
        DenyListStateUpdater {
            deny_service,
            static_allow_ranges: ranges_of(static_overrides.allowed()),
            static_deny_ranges: ranges_of(static_overrides.denied()),
            static_deny_cidrs,
        }
    }

    /// The service that the dynamic deny list comes from.
    pub fn deny_service(&self) -> (r: &Arc<DenyListService<T>>)
        ensures
            **r == self.service(),
    {
        &self.deny_service
    }

    /// The address is always denied.
    pub fn is_statically_denied(&self, addr: &u32) -> (r: bool)
        ensures
            r == self.deny_set().contains(*addr),
    {
        range_set_contains(&self.static_deny_ranges, addr)
    }

    /// The address is always allowed.
    pub fn is_statically_allowed(&self, addr: &u32) -> (r: bool)
        ensures
            r == self.allow_set().contains(*addr),
    {
        range_set_contains(&self.static_allow_ranges, addr)
    }

    /// The step is what seeding does next, with these addresses still to come
    /// and this many inserted.
    pub open spec fn is_seed_step(self, remaining: Seq<u32>, count: usize, step: SeedStep) -> bool {
        match crate::seeding::seed_next(remaining, self.allow_set(), count) {
            SeedNext::Insert { address, remaining: rest } => step matches SeedStep::Insert(a, p)
                && a == address && p.remaining(self.deny_networks()) == rest && p.inserted()
                == count,
            SeedNext::Done { truncated } => step == SeedStep::Done(count, truncated),
        }
    }

    /// Seeds the deny list with the addresses of the static deny networks, up
    /// to the cap that leaves room for dynamic entries: decides what to do
    /// next.
    pub fn seed_static_deny(&self, progress: SeedProgress) -> (r: SeedStep)
        ensures
            self.is_seed_step(progress.remaining(self.deny_networks()), progress.inserted(), r),
    {
        let mut here = progress;
        loop
            invariant
                here.inserted() == progress.inserted(),
                here.inserted() < DENY_LIST_CAP ==> crate::seeding::skip_allowed(
                    here.remaining(self.deny_networks()),
                    self.allow_set(),
                ) == crate::seeding::skip_allowed(
                    progress.remaining(self.deny_networks()),
                    self.allow_set(),
                ),
                here.inserted() >= DENY_LIST_CAP ==> here == progress,
            decreases here.remaining(self.deny_networks()).len(),
        {
            match here.next_address(&self.static_deny_cidrs) {
                None => {
                    return SeedStep::Done(here.count(), false);
                },
                Some((address, next)) => {
                    if here.count() >= DENY_LIST_CAP {
                        return SeedStep::Done(here.count(), true);
                    }
                    if !self.is_statically_allowed(&address) {
                        return SeedStep::Insert(address, next);
                    }
                    here = next;
                },
            }
        }
    }

    /// The addresses that a list of denied networks calls for.
    pub open spec fn dynamic_set(self, nodes: Seq<Ipv4Cidr>) -> Set<u32> {
        crate::ranges::union_of(nodes).difference(self.allow_set())
    }

    /// The refresh that these networks call for, given these entries: every
    /// entry that could be read is removed unless the networks call for its
    /// address or it is always denied, and every address that the networks
    /// call for is checked, in some order.
    pub open spec fn is_refresh(
        self,
        nodes: Seq<Ipv4Cidr>,
        entries: Seq<Option<u32>>,
        refresh: RefreshView,
    ) -> bool {
        &&& refresh.removals == crate::refresh::stale(
            entries,
            self.dynamic_set(nodes),
            self.deny_set(),
        )
        &&& refresh.checks.no_duplicates()
        &&& refresh.checks.to_set() == self.dynamic_set(nodes)
        &&& !refresh.inserting
    }

    /// Brings the deny list in line with a fresh list of denied networks:
    /// decides what there is to do.
    pub fn refresh_dynamic_deny(
        &self,
        nodes: &Vec<Ipv4Cidr>,
        entries: &Vec<Option<u32>>,
    ) -> (r: RefreshRun)
        ensures
            self.is_refresh(nodes@, entries@, r@),
    {
        let dynamic_deny_set: HashSet<u32> = addresses_of(nodes, &self.static_allow_ranges);
        let to_remove: Vec<u32> = stale_entries(
            entries,
            &dynamic_deny_set,
            &self.static_deny_ranges,
        );
        RefreshRun::new(to_remove, walked(&dynamic_deny_set))
    }

    /// The state stands for what seeding does next, with these addresses still
    /// to come and this many inserted.
    pub open spec fn seeds(self, remaining: Seq<u32>, count: usize, state: RunState) -> bool {
        match state {
            RunState::Seed(address, next) => self.is_seed_step(
                remaining,
                count,
                SeedStep::Insert(address, next),
            ),
            RunState::SeedReport(inserted, truncated) => self.is_seed_step(
                remaining,
                count,
                SeedStep::Done(inserted, truncated),
            ),
            _ => false,
        }
    }

    /// The step that an updater takes. It binds the deny list, or stops; it
    /// seeds it and reports how that went; then, until it is told to exit, it
    /// asks for a list of denied networks, brings the deny list in line with
    /// it if there is one, and pauses. An event that does not answer what the
    /// state asks for changes nothing.
    pub open spec fn steps(self, state: RunState, event: RunEvent, next: RunState) -> bool {
        match (state, event) {
            (RunState::Bind, RunEvent::Completed(ok)) => if ok {
                self.seeds(crate::seeding::expanded(self.deny_networks()), 0, next)
            } else {
                next == RunState::Stop
            },
            (RunState::Seed(_, progress), RunEvent::Completed(ok)) => self.seeds(
                progress.remaining(self.deny_networks()),
                crate::seeding::noted_count(progress.inserted(), ok),
                next,
            ),
            (RunState::SeedReport(_, _), RunEvent::Completed(_)) => next == RunState::CheckExit,
            (RunState::CheckExit, RunEvent::Exit(exit)) => next == if exit {
                RunState::Stop
            } else {
                RunState::Fetch
            },
            (RunState::Fetch, RunEvent::Fetched(answer)) => next == match answer {
                Ok(nodes) => RunState::List(nodes),
                Err(_) => RunState::Sleep,
            },
            (RunState::List(nodes), RunEvent::Entries(entries)) => exists|refresh: RefreshView|
                self.is_refresh(nodes@, entries@, refresh) && #[trigger] settles(refresh, next),
            (RunState::Refresh(refresh), RunEvent::Completed(ok)) => settles(
                refresh@.after(ok),
                next,
            ),
            (RunState::Sleep, RunEvent::Completed(_)) => next == RunState::CheckExit,
            (state, _) => next == state,
        }
    }

    /// Takes the next step.
    pub fn run(&self, state: RunState, event: RunEvent) -> (r: RunState)
        ensures
            self.steps(state, event, r),
    {
        match (state, event) {
            (RunState::Bind, RunEvent::Completed(ok)) => if ok {
                self.seed_on(SeedProgress::start())
            } else {
                RunState::Stop
            },
            (RunState::Seed(_, progress), RunEvent::Completed(ok)) => self.seed_on(
                progress.noted(ok),
            ),
            (RunState::SeedReport(_, _), RunEvent::Completed(_)) => RunState::CheckExit,
            (RunState::CheckExit, RunEvent::Exit(exit)) => if exit {
                RunState::Stop
            } else {
                RunState::Fetch
            },
            (RunState::Fetch, RunEvent::Fetched(answer)) => match answer {
                Ok(nodes) => RunState::List(nodes),
                Err(_) => RunState::Sleep,
            },
            (RunState::List(nodes), RunEvent::Entries(entries)) => settle(
                self.refresh_dynamic_deny(&nodes, &entries),
            ),
            (RunState::Refresh(refresh), RunEvent::Completed(ok)) => settle(refresh.answer(ok)),
            (RunState::Sleep, RunEvent::Completed(_)) => RunState::CheckExit,
            (state, _) => state,
        }
    }

    /// The state that stands for the next step of seeding.
    fn seed_on(&self, progress: SeedProgress) -> (r: RunState)
        ensures
            self.seeds(progress.remaining(self.deny_networks()), progress.inserted(), r),
    {
        match self.seed_static_deny(progress) {
            SeedStep::Insert(address, next) => RunState::Seed(address, next),
            SeedStep::Done(count, truncated) => RunState::SeedReport(count, truncated),
        }
    }
}

} // verus!
