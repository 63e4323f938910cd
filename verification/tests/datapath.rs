use std::collections::BTreeMap;
use validator_firewall::datapath::{
    is_allowed, is_quic_zero_rtt, try_process_packet, validator_firewall, PacketRequest, PacketRun,
    XdpAction,
};
use validator_firewall::network::LpmKey;
use validator_firewall::packet::{ptr_at, read_headers, Headers};
use validator_firewall::stats::{
    increment_counter, missing_entry, ConnectionStats, RuntimeControls, StatType,
};
use validator_firewall::tasks::{log_task_join, LogLevel, TaskFailure};

fn udp(src: [u8; 4], port: u16) -> Vec<u8> {
    let mut frame = vec![0u8; 42];
    frame[12] = 0x08;
    frame[13] = 0x00;
    frame[23] = 17;
    frame[26..30].copy_from_slice(&src);
    frame[36..38].copy_from_slice(&port.to_be_bytes());
    frame
}

/// Answers a run from plain lists, and collects what it counts.
fn drive(
    mut run: PacketRun,
    ports: &[u16],
    denied: &[u32],
    allowed: &[[u8; 4]],
) -> (XdpAction, Vec<(u32, StatType)>) {
    let mut counts = Vec::new();
    loop {
        let found = match run.request() {
            PacketRequest::Finish(action) => return (action, counts),
            PacketRequest::FindPort(port) => ports.contains(&port),
            PacketRequest::FindDenied(address) => denied.contains(&address),
            PacketRequest::FindAllowed(key) => {
                assert_eq!(key.prefix_len, 32);
                allowed.contains(&key.data)
            }
            PacketRequest::Count(address, stat_type) => {
                counts.push((address, stat_type));
                false
            }
        };
        run = run.answer(found);
    }
}

const NEAR: RuntimeControls = RuntimeControls { global_enabled: true, close_to_leader: true };
const FAR: RuntimeControls = RuntimeControls { global_enabled: true, close_to_leader: false };
const OFF: RuntimeControls = RuntimeControls { global_enabled: false, close_to_leader: true };

#[test]
fn near_the_leader_the_deny_list_decides() {
    let frame = udp([1, 2, 3, 4], 8009);
    let all = (0x0102_0304, StatType::All);
    let blocked = (0x0102_0304, StatType::Blocked);
    assert_eq!(
        drive(validator_firewall(Some(NEAR), &frame), &[8009], &[], &[]),
        (XdpAction::Pass, vec![all])
    );
    assert_eq!(
        drive(validator_firewall(Some(NEAR), &frame), &[8009], &[0x0102_0304], &[[1, 2, 3, 4]]),
        (XdpAction::Drop, vec![all, blocked])
    );
}

#[test]
fn far_from_the_leader_the_allow_list_decides() {
    let frame = udp([1, 2, 3, 4], 8010);
    let all = (0x0102_0304, StatType::All);
    let far = (0x0102_0304, StatType::FarFromLeader);
    let blocked = (0x0102_0304, StatType::Blocked);
    assert_eq!(
        drive(validator_firewall(Some(FAR), &frame), &[8010], &[0x0102_0304], &[[1, 2, 3, 4]]),
        (XdpAction::Pass, vec![all, far])
    );
    assert_eq!(
        drive(validator_firewall(Some(FAR), &frame), &[8010], &[], &[[4, 3, 2, 1]]),
        (XdpAction::Drop, vec![all, far, blocked])
    );
}

#[test]
fn without_controls_the_filter_is_on_and_near() {
    let frame = udp([1, 2, 3, 4], 8009);
    assert_eq!(
        drive(validator_firewall(None, &frame), &[8009], &[0x0102_0304], &[[1, 2, 3, 4]]).0,
        XdpAction::Drop
    );
}

#[test]
fn a_filter_that_is_off_passes_everything() {
    let frame = udp([1, 2, 3, 4], 8009);
    assert_eq!(
        validator_firewall(Some(OFF), &frame),
        PacketRun::Finished(XdpAction::Pass)
    );
}

#[test]
fn unprotected_ports_pass_uncounted() {
    let frame = udp([1, 2, 3, 4], 53);
    assert_eq!(
        drive(validator_firewall(Some(NEAR), &frame), &[8009], &[0x0102_0304], &[]),
        (XdpAction::Pass, vec![])
    );
}

#[test]
fn other_protocols_pass() {
    let mut ipv6 = udp([1, 2, 3, 4], 8009);
    ipv6[12] = 0x86;
    ipv6[13] = 0xdd;
    assert_eq!(read_headers(&ipv6), Headers::Other);
    let mut swapped = udp([1, 2, 3, 4], 8009);
    swapped[12] = 0x00;
    swapped[13] = 0x08;
    assert_eq!(read_headers(&swapped), Headers::Other);
    let mut tcp = udp([1, 2, 3, 4], 8009);
    tcp[23] = 6;
    assert_eq!(read_headers(&tcp), Headers::Other);
    assert_eq!(try_process_packet(&tcp, true), Ok(PacketRun::Finished(XdpAction::Pass)));
    // A short frame of another type is not truncated.
    assert_eq!(read_headers(&ipv6[..14]), Headers::Other);
    assert_eq!(read_headers(&tcp[..34]), Headers::Other);
}

#[test]
fn headers_are_read() {
    assert_eq!(
        read_headers(&udp([10, 20, 30, 40], 0x1234)),
        Headers::Udp { src_bytes: [10, 20, 30, 40], dest_port: 0x1234 }
    );
}

#[test]
fn truncated_frames_fail_and_pass() {
    let frame = udp([1, 2, 3, 4], 8009);
    for len in [0, 13, 14, 33, 34, 41] {
        assert_eq!(read_headers(&frame[..len]), Headers::Truncated);
        assert_eq!(try_process_packet(&frame[..len], true), Err(()));
        assert_eq!(
            validator_firewall(Some(NEAR), &frame[..len]),
            PacketRun::Finished(XdpAction::Pass)
        );
    }
    assert!(try_process_packet(&frame, true).is_ok());
}

#[test]
fn requests_name_what_to_look_up() {
    let run = validator_firewall(Some(FAR), &udp([1, 2, 3, 4], 8009));
    assert_eq!(run.request(), PacketRequest::FindPort(8009));
    let run = run.answer(true).answer(false).answer(false);
    assert_eq!(
        run.request(),
        PacketRequest::FindAllowed(LpmKey { prefix_len: 32, data: [1, 2, 3, 4] })
    );
}

#[test]
fn a_verdict_stays() {
    for action in [XdpAction::Pass, XdpAction::Drop] {
        assert_eq!(PacketRun::Finished(action).answer(true), PacketRun::Finished(action));
        assert_eq!(PacketRun::Finished(action).answer(false), PacketRun::Finished(action));
    }
}

#[test]
fn sources_are_admitted_by_mode() {
    assert!(is_allowed(true, false));
    assert!(!is_allowed(true, true));
    assert!(is_allowed(false, true));
    assert!(!is_allowed(false, false));
    assert!(!is_quic_zero_rtt(0x0102_0304));
}

#[test]
fn bounds_of_an_item() {
    assert_eq!(ptr_at(1000, 1014, 0, 14), Ok(1000));
    assert_eq!(ptr_at(1000, 1014, 0, 15), Err(()));
    assert_eq!(ptr_at(1000, 1042, 34, 8), Ok(1034));
    assert_eq!(ptr_at(1000, 1041, 34, 8), Err(()));
}

#[test]
fn counters_start_at_zero_and_count_one_type() {
    assert_eq!(missing_entry(true), None);
    let zero = missing_entry(false).unwrap();
    assert_eq!(zero, ConnectionStats::default());
    let stats = increment_counter(Some(zero), StatType::All).unwrap();
    let stats = increment_counter(Some(stats), StatType::All).unwrap();
    let stats = increment_counter(Some(stats), StatType::FarFromLeader).unwrap();
    let stats = increment_counter(Some(stats), StatType::Blocked).unwrap();
    assert_eq!(
        stats,
        ConnectionStats {
            pkt_count: 2,
            blocked_pkt_count: 1,
            far_from_leader_pkt_count: 1,
            zero_rtt_pkt_count: 0,
        }
    );
    let stats = increment_counter(Some(stats), StatType::ZeroRtt).unwrap();
    assert_eq!(stats.count_of(StatType::ZeroRtt), 1);
    assert_eq!(stats.count_of(StatType::All), 2);
    assert_eq!(stats.count_of(StatType::Blocked), 1);
    assert_eq!(stats.count_of(StatType::FarFromLeader), 1);
    assert_eq!(increment_counter(None, StatType::All), None);
}

#[test]
fn default_controls_are_off() {
    assert_eq!(
        RuntimeControls::default(),
        RuntimeControls { global_enabled: false, close_to_leader: false }
    );
}

#[test]
fn ends_of_tasks_are_logged() {
    assert!(log_task_join("stats", Ok(())).is_none());
    let line = log_task_join(
        "stats",
        Err(TaskFailure { panicked: true, message: "boom".to_string() }),
    )
    .unwrap();
    assert_eq!(line.level, LogLevel::Error);
    assert_eq!(line.text, "task 'stats' panicked: boom");
    let line = log_task_join(
        "tracker",
        Err(TaskFailure { panicked: false, message: "gone".to_string() }),
    )
    .unwrap();
    assert_eq!(line.level, LogLevel::Warn);
    assert_eq!(line.text, "task 'tracker' was cancelled: gone");
}

#[test]
fn frames_are_counted_in_the_table() {
    let mut table: BTreeMap<u32, ConnectionStats> = BTreeMap::new();
    let mut meet = |controls, src, denied: &[u32]| {
        let frame = udp(src, 8009);
        let (_, counts) = drive(validator_firewall(Some(controls), &frame), &[8009], denied, &[]);
        for (address, stat_type) in counts {
            if let Some(fresh) = missing_entry(table.contains_key(&address)) {
                table.insert(address, fresh);
            }
            let entry = table.get(&address).copied();
            table.insert(address, increment_counter(entry, stat_type).unwrap());
        }
    };
    meet(NEAR, [0, 0, 0, 1], &[]);
    meet(NEAR, [0, 0, 0, 1], &[1]);
    meet(FAR, [0, 0, 0, 1], &[]);
    meet(NEAR, [0, 0, 0, 2], &[1]);
    meet(OFF, [0, 0, 0, 3], &[3]);
    let stats = |pkt_count, blocked_pkt_count, far_from_leader_pkt_count| ConnectionStats {
        pkt_count,
        blocked_pkt_count,
        far_from_leader_pkt_count,
        zero_rtt_pkt_count: 0,
    };
    assert_eq!(table, BTreeMap::from([(1, stats(3, 2, 1)), (2, stats(1, 0, 0))]));
}
