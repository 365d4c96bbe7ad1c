//! Tests of the DNS-update request builder and the reply reader, run
//! against the real outside crates.

use aliddns::ifaddrs::Interface;
use aliddns::sockaddr::IpAddress;
use aliddns::update::{
    addr_to_string, build_update_url, plan_v4, plan_v6, process_resp, record_kind_str,
    u16_to_hex, u64_to_string, Config, RecordPlan, ResponseError,
};
use base64::Engine;

fn config() -> Config {
    Config {
        interval_secs: 300,
        access_key_id: "testid".to_string(),
        access_key_secret: "testsecret".to_string(),
        record_id_v4: Some(12345),
        record_id_v6: None,
        global_v4: false,
        global_v6: false,
        static_v6: false,
        rr: "www".to_string(),
    }
}

#[test]
fn decimal_text_of_values() {
    assert_eq!(u64_to_string(0), "0");
    assert_eq!(u64_to_string(7), "7");
    assert_eq!(u64_to_string(1234567890), "1234567890");
    assert_eq!(u64_to_string(u64::MAX), "18446744073709551615");
}

#[test]
fn hexadecimal_text_of_values() {
    assert_eq!(u16_to_hex(0), "0");
    assert_eq!(u16_to_hex(0x1a2b), "1a2b");
    assert_eq!(u16_to_hex(0xffff), "ffff");
}

#[test]
fn v4_address_text_is_the_dotted_quad() {
    let v = IpAddress::V4 { a: 10, b: 0, c: 0, d: 5 };
    assert_eq!(addr_to_string(&v), "10.0.0.5");
    assert_eq!(record_kind_str(&v), "A");
}

#[test]
fn v6_address_text_is_the_full_segment_form() {
    let v = IpAddress::V6 { s0: 0x2001, s1: 0xdb8, s2: 0, s3: 0, s4: 0, s5: 0, s6: 0, s7: 1 };
    assert_eq!(addr_to_string(&v), "2001:db8:0:0:0:0:0:1");
    assert_eq!(record_kind_str(&v), "AAAA");
}

#[test]
fn update_url_matches_the_signing_protocol() {
    let cfg = config();
    let value = IpAddress::V4 { a: 1, b: 2, c: 3, d: 4 };
    let timestamp = "2024-01-02T03:04:05Z";
    let nonce = 1704164645000u64;
    let url = build_update_url(&cfg, &value, 12345, timestamp, nonce);

    // assemble the expectation directly with the outside crates
    let query = format!(
        "AccessKeyId={}&Action=UpdateDomainRecord&Format=JSON&RR={}&RecordId={}&SignatureMethod=HMAC-SHA1&SignatureNonce={}&SignatureVersion=1.0&Timestamp={}&Type=A&Value={}&Version=2015-01-09",
        cfg.access_key_id,
        urlencoding::encode(&cfg.rr),
        12345,
        nonce,
        urlencoding::encode(timestamp),
        urlencoding::encode("1.2.3.4"),
    );
    let to_sign = format!("GET&%2F&{}", urlencoding::encode(&query));
    let mut key = cfg.access_key_secret.clone().into_bytes();
    key.push(b'&');
    let digest = hmac_sha1::hmac_sha1(&key, to_sign.as_bytes());
    let signature = base64::prelude::BASE64_STANDARD.encode(digest);
    let expected = format!(
        "http://alidns.aliyuncs.com/?{}&Signature={}",
        query,
        urlencoding::encode(&signature),
    );
    assert_eq!(url, expected);
}

#[test]
fn update_url_publishes_the_v6_text_form() {
    let cfg = config();
    let value = IpAddress::V6 { s0: 0x2001, s1: 0xdb8, s2: 0, s3: 0, s4: 0, s5: 0, s6: 0, s7: 1 };
    let url = build_update_url(&cfg, &value, 777, "2024-01-02T03:04:05Z", 7);
    assert!(url.contains("&Type=AAAA&"));
    assert!(url.contains(&format!(
        "&Value={}&",
        urlencoding::encode("2001:db8:0:0:0:0:0:1")
    )));
}

#[test]
fn update_url_percent_encodes_the_timestamp() {
    let cfg = config();
    let value = IpAddress::V4 { a: 1, b: 2, c: 3, d: 4 };
    let url = build_update_url(&cfg, &value, 12345, "2024-01-02T03:04:05Z", 7);
    assert!(url.contains("Timestamp=2024-01-02T03%3A04%3A05Z"));
    assert!(!url.contains("Timestamp=2024-01-02T03:04:05Z"));
}

fn iface_with(addrs: Vec<IpAddress>) -> Interface {
    Interface { desc: "NIC".to_string(), name: "id-1".to_string(), addrs }
}

#[test]
fn cycle_plans_publish_the_first_address_of_each_family() {
    let cfg = Config { record_id_v6: Some(6), record_id_v4: Some(4), ..config() };
    let v6 = IpAddress::V6 { s0: 0x2001, s1: 0, s2: 0, s3: 0, s4: 0, s5: 0, s6: 0, s7: 1 };
    let v4 = IpAddress::V4 { a: 10, b: 0, c: 0, d: 5 };
    let iface = iface_with(vec![v6, v4]);
    assert_eq!(plan_v6(&cfg, &iface), RecordPlan::Publish { id: 6, value: v6 });
    assert_eq!(plan_v4(&cfg, &iface), RecordPlan::Publish { id: 4, value: v4 });
}

#[test]
fn cycle_plan_reports_a_missing_address() {
    let cfg = Config { record_id_v6: Some(6), record_id_v4: None, ..config() };
    let v4 = IpAddress::V4 { a: 10, b: 0, c: 0, d: 5 };
    let iface = iface_with(vec![v4]);
    assert_eq!(plan_v6(&cfg, &iface), RecordPlan::MissingAddress { id: 6 });
    assert_eq!(plan_v4(&cfg, &iface), RecordPlan::NotConfigured);
}

#[test]
fn cycle_plan_asks_the_lookup_service_when_configured() {
    let cfg = Config { record_id_v4: Some(4), global_v4: true, ..config() };
    let iface = iface_with(Vec::new());
    assert_eq!(plan_v4(&cfg, &iface), RecordPlan::PublishGlobal { id: 4 });
}

#[test]
fn reply_with_message_is_a_refusal() {
    let resp = b"{\"Message\":\"boom\",\"Code\":\"InvalidSignature\"}".to_vec();
    match process_resp(&resp) {
        Err(ResponseError::ApiRefusal { message }) => assert_eq!(message, "boom"),
        other => panic!("unexpected outcome: {:?}", other),
    }
}

#[test]
fn reply_without_message_is_success() {
    let resp = b"{\"RecordId\":\"9999\",\"RequestId\":\"x\"}".to_vec();
    assert!(process_resp(&resp).is_ok());
}

#[test]
fn reply_that_is_not_json_is_malformed() {
    let resp = b"<html>502</html>".to_vec();
    match process_resp(&resp) {
        Err(ResponseError::MalformedResponse) => (),
        other => panic!("unexpected outcome: {:?}", other),
    }
}
