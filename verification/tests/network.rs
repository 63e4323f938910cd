use validator_firewall::network::{
    address_from_octets, octets, to_range, CidrError, Ipv4Cidr, LpmKey,
};
use validator_firewall::overrides::{
    protected_ports, push_allow_list_to_map, ALLOW_LPM_MAX_ENTRIES,
};

#[test]
fn network_bounds() {
    let c = Ipv4Cidr::new(0xc0a8_0000, 30).unwrap();
    assert_eq!(c.first_address(), 0xc0a8_0000);
    assert_eq!(c.last_address(), 0xc0a8_0003);
    assert_eq!(c.network_length(), 30);
    assert_eq!(to_range(c), 0xc0a8_0000..=0xc0a8_0003);
    assert_eq!(to_range(Ipv4Cidr::new(0, 0).unwrap()), 0..=u32::MAX);
    assert_eq!(to_range(Ipv4Cidr::new(7, 32).unwrap()), 7..=7);
}

#[test]
fn invalid_networks_are_refused() {
    assert_eq!(Ipv4Cidr::new(0xc0a8_0001, 30), Err(CidrError::InvalidHostPart));
    assert_eq!(Ipv4Cidr::new(0, 33), Err(CidrError::NetworkLengthTooLong));
    assert_eq!(Ipv4Cidr::new(1, 33), Err(CidrError::NetworkLengthTooLong));
    assert_eq!(Ipv4Cidr::new(1, 0), Err(CidrError::InvalidHostPart));
}

#[test]
fn texts_are_parsed() {
    let c = Ipv4Cidr::from_str("192.168.0.0/30").unwrap();
    assert_eq!((c.first_address(), c.network_length()), (0xc0a8_0000, 30));
    assert_eq!(Ipv4Cidr::from_str("192.168.0.1/30"), Err(CidrError::InvalidHostPart));
    assert_eq!(Ipv4Cidr::from_str("192.168.0.0/33"), Err(CidrError::NetworkLengthTooLong));
    assert_eq!(Ipv4Cidr::from_str("192.168.0.0/x"), Err(CidrError::NetworkLength));
    assert_eq!(Ipv4Cidr::from_str("192.168.0/24"), Err(CidrError::Address));
    assert_eq!(Ipv4Cidr::from_str(""), Err(CidrError::Address));
}

#[test]
fn byte_orders() {
    assert_eq!(address_from_octets([1, 2, 3, 4]), 0x0102_0304);
    assert_eq!(octets(0x0102_0304), [1, 2, 3, 4]);
    for address in [0, 1, 0xff, 0x100, 0x8008_0135, u32::MAX] {
        assert_eq!(address_from_octets(octets(address)), address);
        assert_eq!(octets(address), address.to_be_bytes());
    }
}

#[test]
fn prefix_keys_are_in_network_order() {
    let c = Ipv4Cidr::from_str("8.8.0.0/16").unwrap();
    assert_eq!(c.lpm_key(), LpmKey { prefix_len: 16, data: [8, 8, 0, 0] });
}

#[test]
fn allow_list_fits() {
    let networks = vec![
        Ipv4Cidr::from_str("8.8.0.0/16").unwrap(),
        Ipv4Cidr::from_str("1.2.3.4").unwrap(),
    ];
    let plan = push_allow_list_to_map(&networks);
    assert_eq!(
        plan.keys,
        vec![
            LpmKey { prefix_len: 16, data: [8, 8, 0, 0] },
            LpmKey { prefix_len: 32, data: [1, 2, 3, 4] },
        ]
    );
    assert!(!plan.truncated);
}

#[test]
fn allow_list_is_cut_at_its_size() {
    let hosts = |n: u32| -> Vec<Ipv4Cidr> { (0..n).map(|a| Ipv4Cidr::new(a, 32).unwrap()).collect() };
    let full = push_allow_list_to_map(&hosts(1024));
    assert_eq!(full.keys.len(), ALLOW_LPM_MAX_ENTRIES);
    assert!(!full.truncated);
    let over = push_allow_list_to_map(&hosts(1025));
    assert_eq!(over.keys.len(), 1024);
    assert_eq!(over.keys[1023].data, [0, 0, 3, 255]);
    assert!(over.truncated);
}

#[test]
fn ports_default() {
    assert_eq!(protected_ports(&vec![]), vec![8009, 8010]);
    assert_eq!(protected_ports(&vec![53]), vec![53]);
    assert_eq!(protected_ports(&vec![1, 2, 1]), vec![1, 2, 1]);
}
