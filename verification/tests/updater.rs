use std::collections::BTreeSet;
use std::sync::Arc;
use validator_firewall::datapath::{validator_firewall, PacketRequest, XdpAction};
use validator_firewall::deny_client::{DenyListError, DenyListService, NoOpDenyListClient};
use validator_firewall::network::Ipv4Cidr;
use validator_firewall::overrides::StaticOverrides;
use validator_firewall::seeding::{SeedProgress, DENY_LIST_CAP};
use validator_firewall::stats::RuntimeControls;
use validator_firewall::updater::{
    DenyListStateUpdater, RunAction, RunEvent, RunState, SeedStep, POLL_INTERVAL_SECS,
};

fn cidr(s: &str) -> Ipv4Cidr {
    Ipv4Cidr::from_str(s).unwrap()
}

fn updater(allow: &[&str], deny: &[&str]) -> DenyListStateUpdater<NoOpDenyListClient> {
    DenyListStateUpdater::new(
        Arc::new(DenyListService::new(NoOpDenyListClient)),
        &StaticOverrides::new(
            &allow.iter().map(|s| cidr(s)).collect(),
            &deny.iter().map(|s| cidr(s)).collect(),
        ),
    )
}

/// Runs table operations on a plain set until something else is asked for.
fn settle(
    updater: &DenyListStateUpdater<NoOpDenyListClient>,
    mut state: RunState,
    table: &mut BTreeSet<u32>,
) -> RunState {
    loop {
        let done = match state.action() {
            RunAction::Insert(address) => {
                table.insert(address);
                true
            }
            RunAction::Remove(address) => table.remove(&address),
            RunAction::Lookup(address) => table.contains(&address),
            _ => return state,
        };
        state = updater.run(state, RunEvent::Completed(done));
    }
}

fn refresh(
    updater: &DenyListStateUpdater<NoOpDenyListClient>,
    nodes: &[&str],
    table: &mut BTreeSet<u32>,
) {
    let nodes: Vec<Ipv4Cidr> = nodes.iter().map(|s| cidr(s)).collect();
    let state = updater.run(RunState::Fetch, RunEvent::Fetched(Ok(nodes)));
    assert_eq!(state.action(), RunAction::ListEntries);
    let mut entries: Vec<Option<u32>> = table.iter().map(|a| Some(*a)).collect();
    entries.push(None);
    let state = updater.run(state, RunEvent::Entries(entries));
    let state = settle(updater, state, table);
    assert_eq!(state.action(), RunAction::Sleep(POLL_INTERVAL_SECS));
}

#[test]
fn binding_failure_stops() {
    let u = updater(&[], &["10.0.0.0/30"]);
    assert_eq!(RunState::Bind.action(), RunAction::Bind);
    assert_eq!(u.run(RunState::Bind, RunEvent::Completed(false)).action(), RunAction::Stop);
}

#[test]
fn seeding_skips_allowed_addresses() {
    let u = updater(&["10.0.0.1", "10.0.0.4/31"], &["10.0.0.0/30", "10.0.0.4"]);
    let mut table = BTreeSet::new();
    let state = u.run(RunState::Bind, RunEvent::Completed(true));
    assert_eq!(state.action(), RunAction::Insert(0x0a00_0000));
    let state = settle(&u, state, &mut table);
    assert_eq!(state.action(), RunAction::ReportSeed(3, false));
    assert_eq!(table, BTreeSet::from([0x0a00_0000, 0x0a00_0002, 0x0a00_0003]));
    assert_eq!(u.run(state, RunEvent::Completed(true)).action(), RunAction::CheckExit);
}

#[test]
fn failed_insertions_are_not_counted() {
    let u = updater(&[], &["10.0.0.0/30"]);
    let mut state = u.run(RunState::Bind, RunEvent::Completed(true));
    let mut asked = Vec::new();
    while let RunAction::Insert(address) = state.action() {
        asked.push(address);
        state = u.run(state, RunEvent::Completed(address % 2 == 0));
    }
    assert_eq!(asked, vec![0x0a00_0000, 0x0a00_0001, 0x0a00_0002, 0x0a00_0003]);
    assert_eq!(state.action(), RunAction::ReportSeed(2, false));
}

#[test]
fn nothing_to_seed() {
    let u = updater(&["10.0.0.0/8"], &["10.1.0.0/30"]);
    let state = u.run(RunState::Bind, RunEvent::Completed(true));
    assert_eq!(state.action(), RunAction::ReportSeed(0, false));
}

#[test]
fn seeding_stops_at_the_cap() {
    assert_eq!(DENY_LIST_CAP, 523264);
    // 2^19 addresses, more than the cap leaves room for.
    let u = updater(&[], &["10.0.0.0/13"]);
    let mut step = u.seed_static_deny(SeedProgress::start());
    let mut inserted: usize = 0;
    while let SeedStep::Insert(_, progress) = step {
        inserted += 1;
        step = u.seed_static_deny(progress.noted(true));
    }
    assert_eq!(inserted, 523264);
    assert!(matches!(step, SeedStep::Done(523264, true)));
}

#[test]
fn allowed_addresses_beyond_the_cap_count_as_truncated() {
    // 2^19 addresses, of which the last 2^10 are allowed: the cap is reached
    // with addresses left, allowed as they are.
    let u = updater(&["10.7.252.0/22"], &["10.0.0.0/13"]);
    let mut step = u.seed_static_deny(SeedProgress::start());
    let mut last = 0;
    while let SeedStep::Insert(address, progress) = step {
        last = address;
        step = u.seed_static_deny(progress.noted(true));
    }
    assert_eq!(last, 0x0a07_fbff);
    assert!(matches!(step, SeedStep::Done(523264, true)));
    // With the allowed ones in front, none is left.
    let u = updater(&["10.0.0.0/22"], &["10.0.0.0/13"]);
    let mut step = u.seed_static_deny(SeedProgress::start());
    while let SeedStep::Insert(_, progress) = step {
        step = u.seed_static_deny(progress.noted(true));
    }
    assert!(matches!(step, SeedStep::Done(523264, false)));
}

#[test]
fn progress_counts_up_to_the_cap() {
    let progress = SeedProgress::start();
    assert_eq!(progress.count(), 0);
    assert_eq!(progress.noted(false).count(), 0);
    assert_eq!(progress.noted(true).noted(true).count(), 2);
}

#[test]
fn refresh_replaces_dynamic_entries() {
    let u = updater(&["10.0.0.1"], &["192.168.0.0/31"]);
    let mut table = BTreeSet::from([0xc0a8_0000, 0xc0a8_0001, 7, 8]);
    refresh(&u, &["10.0.0.0/30", "0.0.0.8"], &mut table);
    let expected = BTreeSet::from([
        0xc0a8_0000,
        0xc0a8_0001,
        8,
        0x0a00_0000,
        0x0a00_0002,
        0x0a00_0003,
    ]);
    assert_eq!(table, expected);
    // Once more with the same networks: nothing changes.
    refresh(&u, &["10.0.0.0/30", "0.0.0.8"], &mut table);
    assert_eq!(table, expected);
    // An empty list leaves what is always denied.
    refresh(&u, &[], &mut table);
    assert_eq!(table, BTreeSet::from([0xc0a8_0000, 0xc0a8_0001]));
}

#[test]
fn refresh_removes_before_it_inserts() {
    let u = updater(&[], &[]);
    let run = u.refresh_dynamic_deny(&vec![cidr("1.1.1.1")], &vec![Some(5), None, Some(6)]);
    assert_eq!(run.removals_left(), 2);
    let state = RunState::Refresh(run);
    assert_eq!(state.action(), RunAction::Remove(5));
    let state = u.run(state, RunEvent::Completed(false));
    assert_eq!(state.action(), RunAction::Remove(6));
    let state = u.run(state, RunEvent::Completed(true));
    assert_eq!(state.action(), RunAction::Lookup(0x0101_0101));
    let state = u.run(state, RunEvent::Completed(false));
    assert_eq!(state.action(), RunAction::Insert(0x0101_0101));
    let state = u.run(state, RunEvent::Completed(false));
    assert_eq!(state.action(), RunAction::Sleep(POLL_INTERVAL_SECS));
}

#[test]
fn refresh_inserts_only_what_is_missing() {
    let u = updater(&[], &[]);
    let run = u.refresh_dynamic_deny(&vec![cidr("1.1.1.1")], &vec![Some(0x0101_0101)]);
    assert_eq!(run.removals_left(), 0);
    let state = RunState::Refresh(run);
    assert_eq!(state.action(), RunAction::Lookup(0x0101_0101));
    let state = u.run(state, RunEvent::Completed(true));
    assert_eq!(state.action(), RunAction::Sleep(POLL_INTERVAL_SECS));
}

#[test]
fn polling_goes_round_until_exit() {
    let u = updater(&[], &[]);
    let state = u.run(RunState::CheckExit, RunEvent::Exit(false));
    assert_eq!(state.action(), RunAction::Fetch);
    let state = u.run(
        state,
        RunEvent::Fetched(Err(DenyListError::Unavailable("down".to_string()))),
    );
    assert_eq!(state.action(), RunAction::Sleep(POLL_INTERVAL_SECS));
    let state = u.run(state, RunEvent::Completed(true));
    assert_eq!(state.action(), RunAction::CheckExit);
    let state = u.run(state, RunEvent::Exit(true));
    assert_eq!(state.action(), RunAction::Stop);
    assert_eq!(u.run(state, RunEvent::Exit(false)).action(), RunAction::Stop);
}

#[test]
fn stray_events_change_nothing() {
    let u = updater(&[], &["10.0.0.0/30"]);
    let state = u.run(RunState::Bind, RunEvent::Exit(true));
    assert_eq!(state.action(), RunAction::Bind);
    let state = u.run(state, RunEvent::Completed(true));
    let state = u.run(state, RunEvent::Entries(vec![]));
    assert_eq!(state.action(), RunAction::Insert(0x0a00_0000));
    let state = u.run(RunState::CheckExit, RunEvent::Completed(true));
    assert_eq!(state.action(), RunAction::CheckExit);
}

#[test]
fn static_denials_outlast_refreshes() {
    let u = updater(&["192.168.0.1"], &["192.168.0.0/30"]);
    let mut table = BTreeSet::new();
    let state = u.run(RunState::Bind, RunEvent::Completed(true));
    let state = settle(&u, state, &mut table);
    assert_eq!(state.action(), RunAction::ReportSeed(3, false));
    refresh(&u, &["192.168.0.1", "10.0.0.7"], &mut table);
    refresh(&u, &[], &mut table);
    let controls = RuntimeControls { global_enabled: true, close_to_leader: true };
    let verdict = |src: [u8; 4]| {
        let mut frame = vec![0u8; 42];
        frame[12] = 0x08;
        frame[23] = 17;
        frame[26..30].copy_from_slice(&src);
        frame[36] = 0x1f;
        frame[37] = 0x49;
        let mut run = validator_firewall(Some(controls), &frame);
        loop {
            run = run.answer(match run.request() {
                PacketRequest::FindPort(port) => port == 8009,
                PacketRequest::FindDenied(address) => table.contains(&address),
                PacketRequest::FindAllowed(_) => panic!("the allow list is not asked here"),
                PacketRequest::Count(_, _) => true,
                PacketRequest::Finish(action) => return action,
            });
        }
    };
    assert_eq!(verdict([192, 168, 0, 2]), XdpAction::Drop);
    assert_eq!(verdict([192, 168, 0, 1]), XdpAction::Pass);
    assert_eq!(verdict([10, 0, 0, 7]), XdpAction::Pass);
}

#[test]
fn polls_every_ten_seconds() {
    assert_eq!(POLL_INTERVAL_SECS, 10);
    assert_eq!(RunState::Sleep.action(), RunAction::Sleep(10));
}

#[test]
fn refresh_survives_failures() {
    // 5 and 6 are stale, of which 5 cannot be removed; 9 is stale but its entry
    // cannot be read. 20 and 21 are missing, of which 20 cannot be inserted; 22
    // is there, though its lookup fails and it cannot be inserted either.
    let u = updater(&[], &["192.168.0.0"]);
    let mut table = BTreeSet::from([5, 6, 9, 22, 0xc0a8_0000]);
    let nodes = vec![cidr("0.0.0.20/31"), cidr("0.0.0.22")];
    let entries = vec![Some(5), Some(6), None, Some(22), Some(0xc0a8_0000)];
    let mut state = u.run(RunState::List(nodes), RunEvent::Entries(entries));
    loop {
        let ok = match state.action() {
            RunAction::Remove(5) | RunAction::Insert(20 | 22) => false,
            RunAction::Remove(address) => table.remove(&address),
            RunAction::Lookup(22) => false,
            RunAction::Lookup(address) => table.contains(&address),
            RunAction::Insert(address) => table.insert(address),
            action => {
                assert_eq!(action, RunAction::Sleep(POLL_INTERVAL_SECS));
                break;
            }
        };
        state = u.run(state, RunEvent::Completed(ok));
    }
    assert_eq!(table, BTreeSet::from([5, 9, 21, 22, 0xc0a8_0000]));
}
