//! The DNS-update request builder: the stateless formatting and signing of
//! the record-update call that the orchestration layer sends once a cycle,
//! and the reading of the service's reply.
//!
//! The request is a query string whose parameters are assembled in a fixed
//! order, signed with HMAC-SHA1 over a canonicalized form and the signature
//! appended.  Percent-encoding, the HMAC digest and its base64 form come
//! from outside crates behind trusted wrappers; everything around them is
//! verified against their named results.

use vstd::prelude::*;

use base64::Engine;

use crate::sockaddr::IpAddress;

verus! {

/// The configuration the orchestration layer reads at startup and hands
/// to the engine: the update interval, the API credentials, the record
/// identifiers to publish, whether to ask an external lookup service for
/// the public address instead of the adapter table, the address-ordering
/// policy, and the record's resource-record name.
pub struct Config {
    pub interval_secs: u64,
    pub access_key_id: String,
    pub access_key_secret: String,
    pub record_id_v4: Option<u64>,
    pub record_id_v6: Option<u64>,
    pub global_v4: bool,
    pub global_v6: bool,
    pub static_v6: bool,
    pub rr: String,
}

/// The decimal digit character of a value below ten.
pub open spec fn dec_digit(d: int) -> char {
    if d == 0 {
        '0'
    } else if d == 1 {
        '1'
    } else if d == 2 {
        '2'
    } else if d == 3 {
        '3'
    } else if d == 4 {
        '4'
    } else if d == 5 {
        '5'
    } else if d == 6 {
        '6'
    } else if d == 7 {
        '7'
    } else if d == 8 {
        '8'
    } else {
        '9'
    }
}

/// The decimal digits of a non-negative value, most significant first,
/// without leading zeros (a lone zero for zero).
pub open spec fn dec_digits(n: int) -> Seq<char>
    decreases n,
{
    if n < 10 {
        seq![dec_digit(n)]
    } else {
        dec_digits(n / 10).push(dec_digit(n % 10))
    }
}

/// The lowercase hexadecimal digit character of a value below sixteen.
pub open spec fn hex_digit(d: int) -> char {
    if d < 10 {
        dec_digit(d)
    } else if d == 10 {
        'a'
    } else if d == 11 {
        'b'
    } else if d == 12 {
        'c'
    } else if d == 13 {
        'd'
    } else if d == 14 {
        'e'
    } else {
        'f'
    }
}

/// The lowercase hexadecimal digits of a non-negative value, most
/// significant first, without leading zeros (a lone zero for zero).
pub open spec fn hex_digits(n: int) -> Seq<char>
    decreases n,
{
    if n < 16 {
        seq![hex_digit(n)]
    } else {
        hex_digits(n / 16).push(hex_digit(n % 16))
    }
}

/// The decimal digit character, as a one-character string.
fn dec_digit_str(d: u64) -> (s: &'static str)
    requires
        d < 10,
    ensures
        s@.len() == 1,
        s@[0] == dec_digit(d as int),
{
    proof {
        reveal_strlit("0");
        reveal_strlit("1");
        reveal_strlit("2");
        reveal_strlit("3");
        reveal_strlit("4");
        reveal_strlit("5");
        reveal_strlit("6");
        reveal_strlit("7");
        reveal_strlit("8");
        reveal_strlit("9");
    }
    match d {
        0 => "0",
        1 => "1",
        2 => "2",
        3 => "3",
        4 => "4",
        5 => "5",
        6 => "6",
        7 => "7",
        8 => "8",
        _ => "9",
    }
}

/// The lowercase hexadecimal digit character, as a one-character string.
fn hex_digit_str(d: u16) -> (s: &'static str)
    requires
        d < 16,
    ensures
        s@.len() == 1,
        s@[0] == hex_digit(d as int),
{
    proof {
        reveal_strlit("a");
        reveal_strlit("b");
        reveal_strlit("c");
        reveal_strlit("d");
        reveal_strlit("e");
        reveal_strlit("f");
    }
    if d < 10 {
        dec_digit_str(d as u64)
    } else {
        match d {
            10 => "a",
            11 => "b",
            12 => "c",
            13 => "d",
            14 => "e",
            _ => "f",
        }
    }
}

/// The decimal text of a value.
pub fn u64_to_string(n: u64) -> (s: String)
    ensures
        s@ == dec_digits(n as int),
    decreases n,
{
    if n < 10 {
        let mut s = String::new();
        s.append(dec_digit_str(n));
        proof {
            assert(s@ =~= dec_digits(n as int));
        }
        s
    } else {
        let mut s = u64_to_string(n / 10);
        s.append(dec_digit_str(n % 10));
        proof {
            assert(s@ =~= dec_digits(n as int));
        }
        s
    }
}

/// The lowercase hexadecimal text of a value.
pub fn u16_to_hex(n: u16) -> (s: String)
    ensures
        s@ == hex_digits(n as int),
    decreases n,
{
    if n < 16 {
        let mut s = String::new();
        s.append(hex_digit_str(n));
        proof {
            assert(s@ =~= hex_digits(n as int));
        }
        s
    } else {
        let mut s = u16_to_hex(n / 16);
        s.append(hex_digit_str(n % 16));
        proof {
            assert(s@ =~= hex_digits(n as int));
        }
        s
    }
}

/// The text form of an address: the dotted decimal quad of an IPv4
/// address, or the eight colon-separated lowercase hexadecimal segments of
/// an IPv6 address, written in full (no zero-run compression), without
/// leading zeros in a segment.
pub open spec fn addr_text(v: IpAddress) -> Seq<char> {
    match v {
        IpAddress::V4 { a, b, c, d } => dec_digits(a as int) + seq!['.'] + dec_digits(b as int)
            + seq!['.'] + dec_digits(c as int) + seq!['.'] + dec_digits(d as int),
        IpAddress::V6 { s0, s1, s2, s3, s4, s5, s6, s7 } => hex_digits(s0 as int) + seq![':']
            + hex_digits(s1 as int) + seq![':'] + hex_digits(s2 as int) + seq![':'] + hex_digits(
            s3 as int,
        ) + seq![':'] + hex_digits(s4 as int) + seq![':'] + hex_digits(s5 as int) + seq![':']
            + hex_digits(s6 as int) + seq![':'] + hex_digits(s7 as int),
    }
}

/// The text form of an address.
pub fn addr_to_string(v: &IpAddress) -> (s: String)
    ensures
        s@ == addr_text(*v),
{
    proof {
        reveal_strlit(".");
        reveal_strlit(":");
    }
    match v {
        IpAddress::V4 { a, b, c, d } => {
            let mut s = u64_to_string(*a as u64);
            s.append(".");
            s.append(u64_to_string(*b as u64).as_str());
            s.append(".");
            s.append(u64_to_string(*c as u64).as_str());
            s.append(".");
            s.append(u64_to_string(*d as u64).as_str());
            proof {
                assert(s@ =~= addr_text(*v));
            }
            s
        },
        IpAddress::V6 { s0, s1, s2, s3, s4, s5, s6, s7 } => {
            let mut s = u16_to_hex(*s0);
            s.append(":");
            s.append(u16_to_hex(*s1).as_str());
            s.append(":");
            s.append(u16_to_hex(*s2).as_str());
            s.append(":");
            s.append(u16_to_hex(*s3).as_str());
            s.append(":");
            s.append(u16_to_hex(*s4).as_str());
            s.append(":");
            s.append(u16_to_hex(*s5).as_str());
            s.append(":");
            s.append(u16_to_hex(*s6).as_str());
            s.append(":");
            s.append(u16_to_hex(*s7).as_str());
            proof {
                assert(s@ =~= addr_text(*v));
            }
            s
        },
    }
}

/// The resource-record type published for an address: `A` for IPv4,
/// `AAAA` for IPv6.
pub open spec fn record_kind(v: IpAddress) -> Seq<char> {
    match v {
        IpAddress::V4 { .. } => "A"@,
        IpAddress::V6 { .. } => "AAAA"@,
    }
}

/// The resource-record type published for an address.
pub fn record_kind_str(v: &IpAddress) -> (s: &'static str)
    ensures
        s@ == record_kind(*v),
{
    match v {
        IpAddress::V4 { .. } => "A",
        IpAddress::V6 { .. } => "AAAA",
    }
}

/// What one cycle should do for one address family's record.
#[derive(Clone, Copy, Debug, PartialEq, Eq, Structural)]
pub enum RecordPlan {
    /// No record identifier of this family is configured; nothing to do.
    NotConfigured,
    /// Publish this address of the selected interface to the record.
    Publish { id: u64, value: IpAddress },
    /// Ask the external lookup service for the public address, then
    /// publish what it returns to the record.
    PublishGlobal { id: u64 },
    /// A record is configured but the selected interface carries no
    /// address of the family; the cycle reports the failure and goes on.
    MissingAddress { id: u64 },
}

/// What the cycle does for the IPv6 record: the first IPv6 address of the
/// selected interface is published when one is configured and available.
pub open spec fn v6_plan(config: Config, addrs: Seq<IpAddress>) -> RecordPlan {
    match config.record_id_v6 {
        None => RecordPlan::NotConfigured,
        Some(id) => match crate::ifaddrs::first_of_family(addrs, true) {
            Some(value) => RecordPlan::Publish { id, value },
            None => RecordPlan::MissingAddress { id },
        },
    }
}

/// What the cycle does for the IPv4 record: the external lookup service
/// is asked when the configuration says so, else the first IPv4 address
/// of the selected interface is published when available.
pub open spec fn v4_plan(config: Config, addrs: Seq<IpAddress>) -> RecordPlan {
    match config.record_id_v4 {
        None => RecordPlan::NotConfigured,
        Some(id) => if config.global_v4 {
            RecordPlan::PublishGlobal { id }
        } else {
            match crate::ifaddrs::first_of_family(addrs, false) {
                Some(value) => RecordPlan::Publish { id, value },
                None => RecordPlan::MissingAddress { id },
            }
        },
    }
}

/// Decides what this cycle does for the IPv6 record of the selected
/// interface.
pub fn plan_v6(config: &Config, interface: &crate::ifaddrs::Interface) -> (r: RecordPlan)
    ensures
        r == v6_plan(*config, interface.addrs@),
{
    match config.record_id_v6 {
        None => RecordPlan::NotConfigured,
        Some(id) => match interface.first_address(true) {
            Some(value) => RecordPlan::Publish { id, value },
            None => RecordPlan::MissingAddress { id },
        },
    }
}

/// Decides what this cycle does for the IPv4 record of the selected
/// interface.
pub fn plan_v4(config: &Config, interface: &crate::ifaddrs::Interface) -> (r: RecordPlan)
    ensures
        r == v4_plan(*config, interface.addrs@),
{
    match config.record_id_v4 {
        None => RecordPlan::NotConfigured,
        Some(id) => if config.global_v4 {
            RecordPlan::PublishGlobal { id }
        } else {
            match interface.first_address(false) {
                Some(value) => RecordPlan::Publish { id, value },
                None => RecordPlan::MissingAddress { id },
            }
        },
    }
}

/// What percent-encoding a string yields.  The result is a function of the
/// characters alone.
pub uninterp spec fn url_encoded(s: Seq<char>) -> Seq<char>;

/// Whether a character passes percent-encoding unchanged: an ASCII
/// alphanumeric or one of `-`, `_`, `.`, `~`.
pub open spec fn url_safe_char(c: char) -> bool {
    ('0' <= c <= '9') || ('A' <= c <= 'Z') || ('a' <= c <= 'z') || c == '-' || c == '_' || c == '.'
        || c == '~'
}

/// Relies on urlencoding::encode: it percent-encodes every byte except the
/// ASCII alphanumerics and `-`, `_`, `.`, `~`, so a string of safe
/// characters comes back unchanged, and the result depends on the input
/// characters alone.
#[verifier::external_body]
fn url_encode(s: &str) -> (r: String)
    ensures
        r@ == url_encoded(s@),
        (forall|i: int| 0 <= i < s@.len() ==> url_safe_char(#[trigger] s@[i])) ==> r@ == s@,
{
    urlencoding::encode(s).into_owned()
}

/// What the HMAC-SHA1 digest of a message under a key is.  The result is a
/// function of the two byte strings alone.
pub uninterp spec fn hmac_sha1_of(key: Seq<u8>, message: Seq<u8>) -> Seq<u8>;

/// Relies on hmac_sha1::hmac_sha1: it returns the 20-byte HMAC-SHA1 digest
/// of the message under the key, a function of its two arguments alone.
#[verifier::external_body]
fn hmac_sha1_digest(key: &[u8], message: &[u8]) -> (r: Vec<u8>)
    ensures
        r@ == hmac_sha1_of(key@, message@),
        r@.len() == 20,
{
    hmac_sha1::hmac_sha1(key, message).to_vec()
}

/// What the standard, padded base64 form of a byte string is.  The result
/// is a function of the bytes alone.
pub uninterp spec fn base64_of(data: Seq<u8>) -> Seq<char>;

/// Relies on base64's BASE64_STANDARD engine: encode writes four output
/// characters for every three input bytes, padded, a function of the bytes
/// alone.
#[verifier::external_body]
fn base64_encode(data: &[u8]) -> (r: String)
    ensures
        r@ == base64_of(data@),
        r@.len() == 4 * ((data@.len() + 2) / 3),
{
    base64::prelude::BASE64_STANDARD.encode(data)
}

/// The unsigned part of the update query: the API parameters in their
/// fixed order, with the resource-record name, the timestamp and the
/// address value percent-encoded.
pub open spec fn base_query(
    access_key_id: Seq<char>,
    rr: Seq<char>,
    id: u64,
    nonce: u64,
    timestamp: Seq<char>,
    value: IpAddress,
) -> Seq<char> {
    "AccessKeyId="@ + access_key_id + "&Action=UpdateDomainRecord&Format=JSON&RR="@ + url_encoded(
        rr,
    ) + "&RecordId="@ + dec_digits(id as int) + "&SignatureMethod=HMAC-SHA1&SignatureNonce="@
        + dec_digits(nonce as int) + "&SignatureVersion=1.0&Timestamp="@ + url_encoded(timestamp)
        + "&Type="@ + record_kind(value) + "&Value="@ + url_encoded(addr_text(value))
        + "&Version=2015-01-09"@
}

/// The canonical string the request signature is computed over.
pub open spec fn string_to_sign(query: Seq<char>) -> Seq<char> {
    "GET&%2F&"@ + url_encoded(query)
}

/// The request signature: the base64 form of the HMAC-SHA1 digest of the
/// canonical string, keyed with the secret followed by an ampersand.
pub open spec fn request_signature(access_key_secret: Seq<char>, query: Seq<char>) -> Seq<char> {
    base64_of(
        hmac_sha1_of(
            vstd::utf8::encode_utf8(access_key_secret).push(38u8),
            vstd::utf8::encode_utf8(string_to_sign(query)),
        ),
    )
}

/// The full update URL for publishing `value` to the record `id`, given
/// the timestamp text and the signature nonce of this request: the service
/// endpoint, the query parameters, and the appended percent-encoded
/// signature.
pub open spec fn update_url(
    config: Config,
    value: IpAddress,
    id: u64,
    timestamp: Seq<char>,
    nonce: u64,
) -> Seq<char> {
    let query = base_query(config.access_key_id@, config.rr@, id, nonce, timestamp, value);
    "http://alidns.aliyuncs.com/?"@ + query + "&Signature="@ + url_encoded(
        request_signature(config.access_key_secret@, query),
    )
}

/// Builds the signed update URL for publishing `value` to the record `id`.
/// The timestamp text and the signature nonce are those of the present
/// request; the orchestration layer reads them from the clock.
pub fn build_update_url(
    config: &Config,
    value: &IpAddress,
    id: u64,
    timestamp: &str,
    nonce: u64,
) -> (url: String)
    ensures
        url@ == update_url(*config, *value, id, timestamp@, nonce),
{
    let mut query = String::from_str("AccessKeyId=");
    query.append(config.access_key_id.as_str());
    query.append("&Action=UpdateDomainRecord&Format=JSON&RR=");
    query.append(url_encode(config.rr.as_str()).as_str());
    query.append("&RecordId=");
    query.append(u64_to_string(id).as_str());
    query.append("&SignatureMethod=HMAC-SHA1&SignatureNonce=");
    query.append(u64_to_string(nonce).as_str());
    query.append("&SignatureVersion=1.0&Timestamp=");
    query.append(url_encode(timestamp).as_str());
    query.append("&Type=");
    query.append(record_kind_str(value));
    query.append("&Value=");
    query.append(url_encode(addr_to_string(value).as_str()).as_str());
    query.append("&Version=2015-01-09");
    let ghost query_spec = base_query(
        config.access_key_id@,
        config.rr@,
        id,
        nonce,
        timestamp@,
        *value,
    );
    proof {
        assert(query@ == query_spec);
    }

    let mut key = config.access_key_secret.as_str().as_bytes_vec();
    key.push(38u8);  // the byte '&'
    let mut to_sign = String::from_str("GET&%2F&");
    to_sign.append(url_encode(query.as_str()).as_str());
    let digest = hmac_sha1_digest(key.as_slice(), to_sign.as_str().as_bytes_vec().as_slice());
    let signature = base64_encode(digest.as_slice());
    proof {
        assert(signature@ == request_signature(config.access_key_secret@, query_spec));
    }

    let mut url = String::from_str("http://alidns.aliyuncs.com/?");
    url.append(query.as_str());
    url.append("&Signature=");
    url.append(url_encode(signature.as_str()).as_str());
    url
}

/// What the update service's reply holds: nothing when the reply is not
/// JSON, otherwise the reply's `Message` string when it carries one.  The
/// result is a function of the reply bytes alone.
pub uninterp spec fn api_response_message(resp: Seq<u8>) -> Option<Option<Seq<char>>>;

/// How a reply from the update service failed.
#[derive(Debug)]
pub enum ResponseError {
    /// The reply was not well-formed JSON.
    MalformedResponse,
    /// The service refused the update and said why.
    ApiRefusal { message: String },
}

/// Relies on json::parse and json::JsonValue::take_string: parses the
/// reply and moves out its `Message` field when that field is a string;
/// the outcome depends on the reply bytes alone.
#[verifier::external_body]
fn parse_response_message(resp: &Vec<u8>) -> (r: Result<Option<String>, ()>)
    ensures
        (match r {
            Ok(Some(m)) => api_response_message(resp@) == Some(Some(m@)),
            Ok(None) => api_response_message(resp@) == Some(Option::<Seq<char>>::None),
            Err(()) => api_response_message(resp@) is None,
        }),
{
    let text = match core::str::from_utf8(resp.as_slice()) {
        Ok(text) => text,
        Err(_) => return Err(()),
    };
    match json::parse(text) {
        Ok(mut value) => Ok(value["Message"].take_string()),
        Err(_) => Err(()),
    }
}

/// Reads the update service's reply: a reply that is not JSON is
/// malformed; one carrying a `Message` string is a refusal quoting that
/// message; any other reply is success.
pub fn process_resp(resp: &Vec<u8>) -> (r: Result<(), ResponseError>)
    ensures
        (match r {
            Ok(()) => api_response_message(resp@) == Some(Option::<Seq<char>>::None),
            Err(ResponseError::MalformedResponse) => api_response_message(resp@) is None,
            Err(ResponseError::ApiRefusal { message }) => api_response_message(resp@) == Some(
                Some(message@),
            ),
        }),
{
    match parse_response_message(resp) {
        Ok(Some(message)) => Err(ResponseError::ApiRefusal { message }),
        Ok(None) => Ok(()),
        Err(()) => Err(ResponseError::MalformedResponse),
    }
}

} // verus!
