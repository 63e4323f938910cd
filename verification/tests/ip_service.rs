use rangemap::RangeInclusiveSet;
use std::sync::Arc;
use validator_firewall::deny_client::{
    check_status, collect_networks, decode_deny_list, host_networks, DenyListClient, DenyListError,
    DenyListService, NoOpDenyListClient,
};
use validator_firewall::network::{CidrError, Ipv4Cidr};
use validator_firewall::overrides::StaticOverrides;
use validator_firewall::updater::DenyListStateUpdater;

#[test]
fn test_inet_ranges() {
    let mut deny_range = RangeInclusiveSet::new();
    let single_host = Ipv4Cidr::from_str("1.1.1.1/32").unwrap();

    let start_addr: u32 = single_host.first_address();
    let end_addr: u32 = single_host.last_address();
    deny_range.insert(start_addr..=end_addr);

    assert!(deny_range.contains(&start_addr));
}

#[test]
fn test_range_coalescing() {
    let mut deny_range = RangeInclusiveSet::new();
    let first_host = Ipv4Cidr::from_str("1.1.1.1/32").unwrap();
    let adjacent_host = Ipv4Cidr::from_str("1.1.1.2/32").unwrap();

    let bare_host = Ipv4Cidr::from_str("192.168.1.1").unwrap();
    assert!(bare_host.network_length() == 32);
    assert!("192.168.1.1".parse::<cidr::Ipv4Cidr>().unwrap().is_host_address());

    let start_addr: u32 = first_host.first_address();
    let end_addr: u32 = first_host.last_address();
    deny_range.insert(start_addr..=end_addr);

    let start_addr: u32 = adjacent_host.first_address();
    let end_addr: u32 = adjacent_host.last_address();
    deny_range.insert(start_addr..=end_addr);
    assert_eq!(deny_range.len(), 1);

    // The library's own ranges coalesce in the same way.
    assert_eq!(
        validator_firewall::ranges::ranges_of(&vec![first_host, adjacent_host]).len(),
        1
    );
}

#[test]
fn test_scalar_conversion() {
    let string_scalar = Ipv4Cidr::from_str("1.3.5.7").unwrap();
    assert_eq!(string_scalar.network_length(), 32);
}

struct StaticClient {
    nodes: Vec<Ipv4Cidr>,
}

impl DenyListClient for StaticClient {
    fn get_deny_list(&self) -> Result<Vec<Ipv4Cidr>, DenyListError> {
        Ok(self.nodes.clone())
    }
}

fn cidr(s: &str) -> Ipv4Cidr {
    Ipv4Cidr::from_str(s).unwrap()
}

#[test]
fn static_overrides_populate_ranges() {
    let allow: Vec<Ipv4Cidr> = vec![cidr("10.0.0.1/32"), cidr("10.0.0.2/32")];
    let deny: Vec<Ipv4Cidr> = vec![cidr("192.168.0.0/30")];
    let updater = DenyListStateUpdater::new(
        Arc::new(DenyListService::new(StaticClient { nodes: vec![] })),
        &StaticOverrides::new(&allow, &deny),
    );

    let allowed: u32 = u32::from_be_bytes([10, 0, 0, 1]);
    let not_allowed: u32 = u32::from_be_bytes([10, 0, 0, 3]);
    let denied: u32 = u32::from_be_bytes([192, 168, 0, 2]);
    let not_denied: u32 = u32::from_be_bytes([192, 168, 0, 5]);

    assert!(updater.is_statically_allowed(&allowed));
    assert!(!updater.is_statically_allowed(&not_allowed));
    assert!(updater.is_statically_denied(&denied));
    assert!(!updater.is_statically_denied(&not_denied));
}

#[test]
fn ranges_reach_the_last_address() {
    let everything = cidr("0.0.0.0/0");
    let end = cidr("255.255.255.0/24");
    let updater = DenyListStateUpdater::new(
        Arc::new(DenyListService::new(NoOpDenyListClient)),
        &StaticOverrides::new(&vec![everything, end], &vec![end]),
    );
    assert!(updater.is_statically_allowed(&0));
    assert!(updater.is_statically_allowed(&u32::MAX));
    assert!(updater.is_statically_denied(&u32::MAX));
    assert!(updater.is_statically_denied(&0xffff_ff00));
    assert!(!updater.is_statically_denied(&0xffff_feff));
}

#[test]
fn service_hands_on_what_the_client_says() {
    let service = DenyListService::new(StaticClient { nodes: vec![cidr("10.1.0.0/16")] });
    assert_eq!(service.get_deny_list().unwrap(), vec![cidr("10.1.0.0/16")]);

    let updater = DenyListStateUpdater::new(
        Arc::new(DenyListService::new(NoOpDenyListClient)),
        &StaticOverrides::new(&vec![], &vec![]),
    );
    assert!(updater.deny_service().get_deny_list().unwrap().is_empty());
}

#[test]
fn only_success_statuses_carry_a_list() {
    let check = |code: u16| {
        let status = reqwest::StatusCode::from_u16(code).unwrap();
        check_status(status.as_u16(), &status.to_string())
    };
    assert!(check(200).is_ok());
    assert!(check(204).is_ok());
    assert!(check(299).is_ok());
    assert!(matches!(check(199), Err(DenyListError::Status(_))));
    assert!(matches!(check(300), Err(DenyListError::Status(text)) if text == "300 Multiple Choices"));
    assert!(
        matches!(check(500), Err(DenyListError::Status(text)) if text == "500 Internal Server Error")
    );
    assert_eq!(
        check(404).unwrap_err().message(),
        "deny-list service returned non-success status: 404 Not Found"
    );
}

#[test]
fn reply_is_decoded_in_order() {
    let texts: Vec<String> = ["10.0.0.0/8", "1.2.3.4"].iter().map(|s| s.to_string()).collect();
    let list = decode_deny_list(&texts).unwrap();
    assert_eq!(list.len(), 2);
    assert_eq!((list[0].first_address(), list[0].network_length()), (0x0a00_0000, 8));
    assert_eq!((list[1].first_address(), list[1].network_length()), (0x0102_0304, 32));
    assert!(decode_deny_list(&Vec::new()).unwrap().is_empty());
}

#[test]
fn first_bad_entry_spoils_the_reply() {
    let texts: Vec<String> = ["10.0.0.0/8", "10.0.0.1/8", "nonsense"]
        .iter()
        .map(|s| s.to_string())
        .collect();
    assert!(matches!(
        decode_deny_list(&texts),
        Err(DenyListError::Entry(1, CidrError::InvalidHostPart))
    ));
}

#[test]
fn query_rows_are_hosts() {
    let list = host_networks(&vec![0x0102_0304, u32::MAX, 0]);
    let pairs: Vec<(u32, u8)> = list
        .iter()
        .map(|c| (c.first_address(), c.network_length()))
        .collect();
    assert_eq!(pairs, vec![(0x0102_0304, 32), (u32::MAX, 32), (0, 32)]);
}

#[test]
fn overrides_list_each_network_once() {
    let a = cidr("10.0.0.0/8");
    let b = cidr("10.0.0.0/16");
    let overrides = StaticOverrides::new(&vec![a, b, a], &vec![b, b]);
    assert_eq!(overrides.allowed(), &vec![a, b]);
    assert_eq!(overrides.denied(), &vec![b]);
}

#[test]
fn overlapping_overrides_are_refused() {
    let a = cidr("10.0.0.0/8");
    let b = cidr("10.0.0.0/16");
    let c = cidr("1.2.3.4");
    assert_eq!(StaticOverrides::resolve(&vec![a, b, c, a], &vec![c, a]).err(), Some(vec![0, 2, 3]));
    // Networks that overlap without being the same are accepted.
    let overrides = StaticOverrides::resolve(&vec![a], &vec![b]).unwrap();
    assert_eq!(overrides.allowed(), &vec![a]);
    assert_eq!(overrides.denied(), &vec![b]);
}

#[test]
fn networks_are_collected_up_to_the_first_failure() {
    let good = vec![Ok(cidr("10.0.0.0/8")), Ok(cidr("1.1.1.1"))];
    let list = collect_networks(&good).unwrap();
    assert_eq!(list, vec![cidr("10.0.0.0/8"), cidr("1.1.1.1")]);
    let bad = vec![
        Ok(cidr("10.0.0.0/8")),
        Err(CidrError::InvalidHostPart),
        Err(CidrError::Address),
    ];
    assert!(matches!(
        collect_networks(&bad),
        Err(DenyListError::Entry(1, CidrError::InvalidHostPart))
    ));
    assert!(collect_networks(&vec![]).unwrap().is_empty());
}

#[test]
fn errors_are_described() {
    let text = "HTTP request to deny-list service failed: timeout".to_string();
    assert_eq!(DenyListError::Unavailable(text.clone()).message(), text);
    assert_eq!(
        check_status(503, "503 Service Unavailable").unwrap_err().message(),
        "deny-list service returned non-success status: 503 Service Unavailable"
    );
    assert_eq!(
        DenyListError::Entry(0, CidrError::Address).message(),
        "failed to decode deny-list JSON: entry 0: couldn't parse address in network"
    );
    let cases = [
        (CidrError::InvalidHostPart, "host part of address was not zero"),
        (CidrError::Address, "couldn't parse address in network"),
        (CidrError::NetworkLength, "couldn't parse length in network"),
        (CidrError::NetworkLengthTooLong, "invalid length for network"),
    ];
    for (error, reason) in cases {
        assert_eq!(error.message(), reason);
        assert_eq!(
            DenyListError::Entry(1070, error).message(),
            format!("failed to decode deny-list JSON: entry 1070: {reason}")
        );
    }
}
