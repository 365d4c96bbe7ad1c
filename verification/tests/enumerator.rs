//! Tests of the interface enumerator: the adapter-level filters and the
//! address-ordering policy.

use aliddns::ifaddrs::{
    list, RawAdapter, RawUnicastAddress, IF_OPER_STATUS_UP, IF_TYPE_ETHERNET_CSMACD,
    IF_TYPE_IEEE80211, IF_TYPE_SOFTWARE_LOOPBACK, IP_SUFFIX_ORIGIN_RANDOM,
};
use aliddns::sockaddr::{IpAddress, RawSockAddr, AF_INET, AF_INET6};
use aliddns::table::ProbeOutcome;

fn v4_entry(a: u8, b: u8, c: u8, d: u8) -> RawUnicastAddress {
    let mut data = vec![0u8, 80u8, a, b, c, d];
    data.extend_from_slice(&[0u8; 8]);
    RawUnicastAddress { suffix_origin: 0, address: Some(RawSockAddr { family: AF_INET, data }) }
}

fn v6_entry(last: u8, suffix_origin: u32) -> RawUnicastAddress {
    let mut data = vec![0u8, 80u8, 0u8, 0u8, 0u8, 0u8];
    let mut addr = [0u8; 16];
    addr[0] = 0x20;
    addr[1] = 0x01;
    addr[15] = last;
    data.extend_from_slice(&addr);
    data.extend_from_slice(&[0u8; 4]);
    RawUnicastAddress { suffix_origin, address: Some(RawSockAddr { family: AF_INET6, data }) }
}

fn v6_addr(last: u16) -> IpAddress {
    IpAddress::V6 { s0: 0x2001, s1: 0, s2: 0, s3: 0, s4: 0, s5: 0, s6: 0, s7: last }
}

fn adapter(
    oper_status: u32,
    if_type: u32,
    desc: &str,
    name: &str,
    unicast: Vec<RawUnicastAddress>,
) -> RawAdapter {
    RawAdapter {
        oper_status,
        if_type,
        description: desc.to_string(),
        name: name.to_string(),
        unicast,
    }
}

fn enumerate(adapters: Vec<RawAdapter>, static_v6: bool) -> Vec<aliddns::ifaddrs::Interface> {
    list(vec![ProbeOutcome::Delivered { adapters }], static_v6).unwrap()
}

#[test]
fn down_adapter_is_excluded_whatever_it_holds() {
    let a = adapter(0, IF_TYPE_ETHERNET_CSMACD, "NIC", "id-1", vec![v4_entry(10, 0, 0, 1)]);
    assert!(enumerate(vec![a], false).is_empty());
}

#[test]
fn loopback_adapter_is_excluded_even_when_up() {
    let a = adapter(
        IF_OPER_STATUS_UP,
        IF_TYPE_SOFTWARE_LOOPBACK,
        "Loopback",
        "lo",
        vec![v4_entry(127, 0, 0, 1)],
    );
    assert!(enumerate(vec![a], false).is_empty());
}

#[test]
fn virtual_marker_in_description_excludes_the_adapter() {
    let a = adapter(
        IF_OPER_STATUS_UP,
        IF_TYPE_ETHERNET_CSMACD,
        "Some Virtual Adapter",
        "vnic",
        vec![v4_entry(10, 0, 0, 2)],
    );
    assert!(enumerate(vec![a], false).is_empty());
}

#[test]
fn wifi_adapter_passes_and_order_is_preserved() {
    let eth = adapter(IF_OPER_STATUS_UP, IF_TYPE_ETHERNET_CSMACD, "Wired", "eth", Vec::new());
    let wifi = adapter(IF_OPER_STATUS_UP, IF_TYPE_IEEE80211, "Wireless", "wlan", Vec::new());
    let ifs = enumerate(vec![eth, wifi], false);
    assert_eq!(ifs.len(), 2);
    assert_eq!(ifs[0].name, "eth");
    assert_eq!(ifs[1].name, "wlan");
}

#[test]
fn privacy_mode_front_inserts_random_v6() {
    let a = adapter(
        IF_OPER_STATUS_UP,
        IF_TYPE_ETHERNET_CSMACD,
        "NIC",
        "id-1",
        vec![
            v6_entry(1, 0),
            v6_entry(2, IP_SUFFIX_ORIGIN_RANDOM),
            v6_entry(3, 0),
        ],
    );
    let ifs = enumerate(vec![a], false);
    assert_eq!(ifs.len(), 1);
    assert_eq!(ifs[0].addrs, vec![v6_addr(2), v6_addr(1), v6_addr(3)]);
}

#[test]
fn stable_mode_keeps_discovery_order() {
    let a = adapter(
        IF_OPER_STATUS_UP,
        IF_TYPE_ETHERNET_CSMACD,
        "NIC",
        "id-1",
        vec![
            v6_entry(1, 0),
            v6_entry(2, IP_SUFFIX_ORIGIN_RANDOM),
            v6_entry(3, 0),
        ],
    );
    let ifs = enumerate(vec![a], true);
    assert_eq!(ifs[0].addrs, vec![v6_addr(1), v6_addr(2), v6_addr(3)]);
}

#[test]
fn random_origin_v4_still_appends() {
    let mut e = v4_entry(10, 0, 0, 9);
    e.suffix_origin = IP_SUFFIX_ORIGIN_RANDOM;
    let a = adapter(
        IF_OPER_STATUS_UP,
        IF_TYPE_ETHERNET_CSMACD,
        "NIC",
        "id-1",
        vec![v6_entry(1, 0), e],
    );
    let ifs = enumerate(vec![a], false);
    assert_eq!(
        ifs[0].addrs,
        vec![v6_addr(1), IpAddress::V4 { a: 10, b: 0, c: 0, d: 9 }]
    );
}

#[test]
fn undecodable_entries_are_skipped() {
    let unknown = RawUnicastAddress {
        suffix_origin: 0,
        address: Some(RawSockAddr { family: 99, data: vec![0; 16] }),
    };
    let absent = RawUnicastAddress { suffix_origin: 0, address: None };
    let a = adapter(
        IF_OPER_STATUS_UP,
        IF_TYPE_ETHERNET_CSMACD,
        "NIC",
        "id-1",
        vec![unknown, absent, v4_entry(10, 0, 0, 5)],
    );
    let ifs = enumerate(vec![a], false);
    assert_eq!(ifs[0].addrs, vec![IpAddress::V4 { a: 10, b: 0, c: 0, d: 5 }]);
}

#[test]
fn reader_error_is_surfaced_unchanged() {
    let res = list(vec![ProbeOutcome::Failed { code: 1722 }], false);
    assert_eq!(res.err(), Some(aliddns::OsError::EnumerationFailure { code: 1722 }));
}

#[test]
fn scenario_one_up_ethernet_adapter() {
    let a = adapter(
        IF_OPER_STATUS_UP,
        IF_TYPE_ETHERNET_CSMACD,
        "Intel(R) Ethernet Connection",
        "eth-id-1",
        vec![
            v6_entry(1, 0),
            v6_entry(2, IP_SUFFIX_ORIGIN_RANDOM),
            v4_entry(10, 0, 0, 5),
        ],
    );
    let ifs = enumerate(vec![a], false);
    assert_eq!(ifs.len(), 1);
    let iface = &ifs[0];
    assert_eq!(iface.name, "eth-id-1");
    assert_eq!(
        iface.addrs,
        vec![v6_addr(2), v6_addr(1), IpAddress::V4 { a: 10, b: 0, c: 0, d: 5 }]
    );
    // the orchestration layer picks the first address of each family
    assert_eq!(iface.first_address(true), Some(v6_addr(2)));
    assert_eq!(iface.first_address(false), Some(IpAddress::V4 { a: 10, b: 0, c: 0, d: 5 }));
}
