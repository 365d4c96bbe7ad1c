//! The address decoder: interprets a raw, platform-native socket-address
//! record and produces a typed IP address, or nothing when the address
//! family is unrecognized.
//!
//! A raw record is modelled as the family tag together with the bytes that
//! follow it in the native record.  For the IPv4 family those bytes are the
//! port (2 bytes) followed by the 4-byte address in network order; for the
//! IPv6 family they are the port (2 bytes), the flow information (4 bytes),
//! the 16-byte address in network order, and the scope identifier.  The
//! decoder extracts the address bytes positionally, never through a
//! host-native integer reinterpretation, so the result does not depend on
//! host endianness.

use vstd::prelude::*;

verus! {

/// Address-family tag of an IPv4 record.
pub const AF_INET: u16 = 2;

/// Address-family tag of an IPv6 record.
pub const AF_INET6: u16 = 23;

/// Offset of the first address byte in the payload of an IPv4 record
/// (the 2-byte port comes first).
pub const V4_ADDR_OFFSET: usize = 2;

/// Offset of the first address byte in the payload of an IPv6 record
/// (2-byte port and 4-byte flow information come first).
pub const V6_ADDR_OFFSET: usize = 6;

/// A raw socket-address record: the family tag and the bytes that follow it.
/// The record is only read; the decoder never retains it.
pub struct RawSockAddr {
    /// The address-family tag stored at the front of the native record.
    pub family: u16,
    /// The bytes of the native record that follow the family tag.
    pub data: Vec<u8>,
}

/// A typed IP address, decoded once from a raw record and immutable
/// afterwards.  An IPv6 address is held as its eight 16-bit segments in
/// network order.
#[derive(Clone, Copy, Debug, PartialEq, Eq, Structural)]
pub enum IpAddress {
    V4 { a: u8, b: u8, c: u8, d: u8 },
    V6 { s0: u16, s1: u16, s2: u16, s3: u16, s4: u16, s5: u16, s6: u16, s7: u16 },
}

impl IpAddress {
    /// Whether this is an IPv4 address.
    pub fn is_ipv4(&self) -> (r: bool)
        ensures
            r == (self is V4),
    {
        match self {
            IpAddress::V4 { .. } => true,
            IpAddress::V6 { .. } => false,
        }
    }

    /// Whether this is an IPv6 address.
    pub fn is_ipv6(&self) -> (r: bool)
        ensures
            r == (self is V6),
    {
        match self {
            IpAddress::V4 { .. } => false,
            IpAddress::V6 { .. } => true,
        }
    }
}

/// The 16-bit value formed by a high and a low byte in network order.
pub open spec fn be16(hi: u8, lo: u8) -> u16 {
    ((hi as int) * 256 + (lo as int)) as u16
}

/// What decoding a record with the given family tag and payload yields:
/// the address bytes read positionally at the family-specific offset, or
/// nothing when the family is unrecognized or the payload is too short to
/// hold the family's fixed layout.
pub open spec fn decoded(family: u16, data: Seq<u8>) -> Option<IpAddress> {
    if family == AF_INET {
        if data.len() >= V4_ADDR_OFFSET + 4 {
            Some(IpAddress::V4 {
                a: data[V4_ADDR_OFFSET as int],
                b: data[V4_ADDR_OFFSET + 1],
                c: data[V4_ADDR_OFFSET + 2],
                d: data[V4_ADDR_OFFSET + 3],
            })
        } else {
            None
        }
    } else if family == AF_INET6 {
        if data.len() >= V6_ADDR_OFFSET + 16 {
            Some(IpAddress::V6 {
                s0: be16(data[V6_ADDR_OFFSET as int], data[V6_ADDR_OFFSET + 1]),
                s1: be16(data[V6_ADDR_OFFSET + 2], data[V6_ADDR_OFFSET + 3]),
                s2: be16(data[V6_ADDR_OFFSET + 4], data[V6_ADDR_OFFSET + 5]),
                s3: be16(data[V6_ADDR_OFFSET + 6], data[V6_ADDR_OFFSET + 7]),
                s4: be16(data[V6_ADDR_OFFSET + 8], data[V6_ADDR_OFFSET + 9]),
                s5: be16(data[V6_ADDR_OFFSET + 10], data[V6_ADDR_OFFSET + 11]),
                s6: be16(data[V6_ADDR_OFFSET + 12], data[V6_ADDR_OFFSET + 13]),
                s7: be16(data[V6_ADDR_OFFSET + 14], data[V6_ADDR_OFFSET + 15]),
            })
        } else {
            None
        }
    } else {
        None
    }
}

/// What decoding an optional record yields: nothing for an absent record.
pub open spec fn decoded_opt(record: Option<&RawSockAddr>) -> Option<IpAddress> {
    match record {
        Some(r) => decoded(r.family, r.data@),
        None => None,
    }
}

/// The 16-bit value of two adjacent payload bytes, executable form.
fn read_be16(hi: u8, lo: u8) -> (r: u16)
    ensures
        r == be16(hi, lo),
{
    (hi as u16) * 256 + (lo as u16)
}

/// Decodes a raw socket-address record into a typed IP address.  An absent
/// record, an unrecognized family, or a payload too short for its declared
/// family all yield nothing; decoding never fails.
pub fn to_ipaddr(record: Option<&RawSockAddr>) -> (r: Option<IpAddress>)
    ensures
        r == decoded_opt(record),
{
    let rec = match record {
        Some(rec) => rec,
        None => {
            return None;
        },
    };
    if rec.family == AF_INET {
        if rec.data.len() >= V4_ADDR_OFFSET + 4 {
            Some(IpAddress::V4 {
                a: rec.data[V4_ADDR_OFFSET],
                b: rec.data[V4_ADDR_OFFSET + 1],
                c: rec.data[V4_ADDR_OFFSET + 2],
                d: rec.data[V4_ADDR_OFFSET + 3],
            })
        } else {
            None
        }
    } else if rec.family == AF_INET6 {
        if rec.data.len() >= V6_ADDR_OFFSET + 16 {
            Some(IpAddress::V6 {
                s0: read_be16(rec.data[V6_ADDR_OFFSET], rec.data[V6_ADDR_OFFSET + 1]),
                s1: read_be16(rec.data[V6_ADDR_OFFSET + 2], rec.data[V6_ADDR_OFFSET + 3]),
                s2: read_be16(rec.data[V6_ADDR_OFFSET + 4], rec.data[V6_ADDR_OFFSET + 5]),
                s3: read_be16(rec.data[V6_ADDR_OFFSET + 6], rec.data[V6_ADDR_OFFSET + 7]),
                s4: read_be16(rec.data[V6_ADDR_OFFSET + 8], rec.data[V6_ADDR_OFFSET + 9]),
                s5: read_be16(rec.data[V6_ADDR_OFFSET + 10], rec.data[V6_ADDR_OFFSET + 11]),
                s6: read_be16(rec.data[V6_ADDR_OFFSET + 12], rec.data[V6_ADDR_OFFSET + 13]),
                s7: read_be16(rec.data[V6_ADDR_OFFSET + 14], rec.data[V6_ADDR_OFFSET + 15]),
            })
        } else {
            None
        }
    } else {
        None
    }
}

/// Decoding a well-formed IPv4 payload reads the address bytes in their
/// fixed network order: the bytes at the address offset become the four
/// octets of the address, on every host.
pub proof fn lemma_v4_decode_byte_order(data: Seq<u8>)
    requires
        data.len() >= V4_ADDR_OFFSET + 4,
    ensures
        decoded(AF_INET, data) == Some(IpAddress::V4 {
            a: data[V4_ADDR_OFFSET as int],
            b: data[V4_ADDR_OFFSET + 1],
            c: data[V4_ADDR_OFFSET + 2],
            d: data[V4_ADDR_OFFSET + 3],
        }),
{
}

/// Decoding is injective on well-formed IPv4 payloads: records that decode
/// to the same address hold the same address bytes.
pub proof fn lemma_v4_decode_injective(d1: Seq<u8>, d2: Seq<u8>)
    requires
        d1.len() >= V4_ADDR_OFFSET + 4,
        d2.len() >= V4_ADDR_OFFSET + 4,
        decoded(AF_INET, d1) == decoded(AF_INET, d2),
    ensures
        d1.subrange(V4_ADDR_OFFSET as int, V4_ADDR_OFFSET + 4)
            =~= d2.subrange(V4_ADDR_OFFSET as int, V4_ADDR_OFFSET + 4),
{
}

/// Decoding a record whose family tag is neither the IPv4 nor the IPv6 tag
/// yields nothing, whatever the payload holds.
pub proof fn lemma_unknown_family_decodes_to_none(family: u16, data: Seq<u8>)
    requires
        family != AF_INET,
        family != AF_INET6,
    ensures
        decoded(family, data) is None,
{
}

} // verus!
