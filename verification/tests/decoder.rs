//! Tests of the address decoder.

use aliddns::sockaddr::{to_ipaddr, IpAddress, RawSockAddr, AF_INET, AF_INET6};

/// The payload of an IPv4 record: port, address bytes, and the zero tail.
fn v4_payload(a: u8, b: u8, c: u8, d: u8) -> Vec<u8> {
    let mut data = vec![0u8, 80u8];
    data.extend_from_slice(&[a, b, c, d]);
    data.extend_from_slice(&[0u8; 8]);
    data
}

/// The payload of an IPv6 record: port, flow information, address bytes,
/// and the scope identifier.
fn v6_payload(addr: [u8; 16]) -> Vec<u8> {
    let mut data = vec![0u8, 80u8, 0u8, 0u8, 0u8, 0u8];
    data.extend_from_slice(&addr);
    data.extend_from_slice(&[0u8; 4]);
    data
}

#[test]
fn decode_v4_reads_bytes_in_network_order() {
    let rec = RawSockAddr { family: AF_INET, data: v4_payload(10, 0, 0, 5) };
    assert_eq!(to_ipaddr(Some(&rec)), Some(IpAddress::V4 { a: 10, b: 0, c: 0, d: 5 }));
}

#[test]
fn decode_v4_distinct_payloads_decode_differently() {
    let r1 = RawSockAddr { family: AF_INET, data: v4_payload(192, 168, 1, 1) };
    let r2 = RawSockAddr { family: AF_INET, data: v4_payload(192, 168, 1, 2) };
    let d1 = to_ipaddr(Some(&r1)).unwrap();
    let d2 = to_ipaddr(Some(&r2)).unwrap();
    assert_ne!(d1, d2);
}

#[test]
fn decode_v6_assembles_segments() {
    let rec = RawSockAddr {
        family: AF_INET6,
        data: v6_payload([
            0x20, 0x01, 0x0d, 0xb8, 0, 0, 0, 0, 0, 0, 0, 0, 0, 0, 0, 0x01,
        ]),
    };
    assert_eq!(
        to_ipaddr(Some(&rec)),
        Some(IpAddress::V6 {
            s0: 0x2001,
            s1: 0x0db8,
            s2: 0,
            s3: 0,
            s4: 0,
            s5: 0,
            s6: 0,
            s7: 1,
        })
    );
}

#[test]
fn decode_unknown_family_yields_nothing() {
    for family in [0u16, 1, 17, 99, 0xffff] {
        let rec = RawSockAddr { family, data: v4_payload(1, 2, 3, 4) };
        assert_eq!(to_ipaddr(Some(&rec)), None);
    }
}

#[test]
fn decode_absent_record_yields_nothing() {
    assert_eq!(to_ipaddr(None), None);
}

#[test]
fn decode_short_payload_yields_nothing() {
    let rec = RawSockAddr { family: AF_INET, data: vec![0, 80, 10] };
    assert_eq!(to_ipaddr(Some(&rec)), None);
    let rec6 = RawSockAddr { family: AF_INET6, data: vec![0; 21] };
    assert_eq!(to_ipaddr(Some(&rec6)), None);
}
