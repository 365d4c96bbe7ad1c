//! The interface enumerator: walks the adapter table, keeps the adapters
//! that pass the physical-adapter filters, decodes each adapter's unicast
//! address entries, and applies the address-ordering policy.
//!
//! An adapter is kept only when its operational status is "up", its class
//! is wired Ethernet or Wi-Fi, and its human description does not carry the
//! virtual-adapter marker.  Within one surviving adapter the decoded
//! addresses keep their discovery order, except that in the
//! privacy-preferring mode (the `static_v6` parameter false) an IPv6
//! address whose suffix origin is "random" is inserted at the front of the
//! adapter's list, so the most recently discovered random address ends up
//! first.

use vstd::prelude::*;

use crate::sockaddr::{decoded, IpAddress, RawSockAddr};
use crate::table::{read_table, reader_result, ProbeOutcome};
use crate::OsError;

verus! {

/// Operational status of an adapter that is up.
pub const IF_OPER_STATUS_UP: u32 = 1;

/// Adapter class of wired Ethernet.
pub const IF_TYPE_ETHERNET_CSMACD: u32 = 6;

/// Adapter class of a software loopback device.
pub const IF_TYPE_SOFTWARE_LOOPBACK: u32 = 24;

/// Adapter class of Wi-Fi.
pub const IF_TYPE_IEEE80211: u32 = 71;

/// Suffix origin of an IPv6 address whose host portion was randomly
/// generated (privacy extension).
pub const IP_SUFFIX_ORIGIN_RANDOM: u32 = 5;

/// One unicast address entry of an adapter, as the adapter table holds it:
/// the suffix-origin tag and the raw socket-address record, which may be
/// absent.
pub struct RawUnicastAddress {
    /// The suffix-origin tag of the entry.
    pub suffix_origin: u32,
    /// The raw socket-address record, absent when the entry carries none.
    pub address: Option<RawSockAddr>,
}

/// One adapter entry of the adapter table.
pub struct RawAdapter {
    /// The adapter's operational status.
    pub oper_status: u32,
    /// The adapter's class.
    pub if_type: u32,
    /// The adapter's human-readable description.
    pub description: String,
    /// The adapter's stable platform identity.
    pub name: String,
    /// The adapter's unicast address entries, in discovery order.
    pub unicast: Vec<RawUnicastAddress>,
}

/// One enumerated adapter that survived the filters: a stable identity used
/// for cross-cycle comparison, a human-readable description used only for
/// log messages, and the adapter's addresses ordered by preference,
/// most-preferred first.
#[derive(Debug)]
pub struct Interface {
    /// The human-readable description.
    pub desc: String,
    /// The stable platform identity.
    pub name: String,
    /// The addresses, most-preferred first.
    pub addrs: Vec<IpAddress>,
}

/// The mathematical value of an [`Interface`].
pub struct InterfaceModel {
    pub desc: Seq<char>,
    pub name: Seq<char>,
    pub addrs: Seq<IpAddress>,
}

impl View for Interface {
    type V = InterfaceModel;

    open spec fn view(&self) -> InterfaceModel {
        InterfaceModel { desc: self.desc@, name: self.name@, addrs: self.addrs@ }
    }
}

/// The first address of the requested family in a preference-ordered
/// address list.
pub open spec fn first_of_family(addrs: Seq<IpAddress>, want_v6: bool) -> Option<IpAddress>
    decreases addrs.len(),
{
    if addrs.len() == 0 {
        None
    } else if (addrs[0] is V6) == want_v6 {
        Some(addrs[0])
    } else {
        first_of_family(addrs.skip(1), want_v6)
    }
}

impl Interface {
    /// The first address of the requested family, the addresses being
    /// ordered most-preferred first: the candidate the orchestration layer
    /// publishes.
    pub fn first_address(&self, want_v6: bool) -> (r: Option<IpAddress>)
        ensures
            r == first_of_family(self.addrs@, want_v6),
    {
        let mut i: usize = 0;
        proof {
            assert(self.addrs@.skip(0) =~= self.addrs@);
        }
        while i < self.addrs.len()
            invariant
                i <= self.addrs@.len(),
                first_of_family(self.addrs@, want_v6) == first_of_family(
                    self.addrs@.skip(i as int),
                    want_v6,
                ),
            decreases self.addrs@.len() - i,
        {
            let a = self.addrs[i];
            proof {
                assert(self.addrs@.skip(i as int)[0] == self.addrs@[i as int]);
            }
            let in_family = if want_v6 {
                a.is_ipv6()
            } else {
                a.is_ipv4()
            };
            if in_family {
                return Some(a);
            }
            proof {
                assert(self.addrs@.skip(i as int).skip(1) =~= self.addrs@.skip(i + 1));
            }
            i += 1;
        }
        None
    }
}

/// Whether `needle` occurs as a contiguous run of characters in `hay`.
pub open spec fn has_substring(hay: Seq<char>, needle: Seq<char>) -> bool {
    exists|i: int|
        0 <= i && i + needle.len() <= hay.len() && #[trigger] hay.subrange(i, i + needle.len())
            == needle
}

/// Whether `needle` occurs in `hay` starting at position `i`.
fn matches_at(hay: &str, needle: &str, i: usize) -> (r: bool)
    requires
        i + needle@.len() <= hay@.len(),
    ensures
        r == (hay@.subrange(i as int, i + needle@.len()) == needle@),
{
    let hl = hay.unicode_len();
    let nl = needle.unicode_len();
    let mut j: usize = 0;
    while j < nl
        invariant
            hl == hay@.len(),
            nl == needle@.len(),
            i + nl <= hl,
            j <= nl,
            forall|t: int| 0 <= t < j ==> hay@[i + t] == needle@[t],
        decreases nl - j,
    {
        if hay.get_char(i + j) != needle.get_char(j) {
            proof {
                assert(hay@.subrange(i as int, i + needle@.len())[j as int] == hay@[i + j]);
            }
            return false;
        }
        j += 1;
    }
    proof {
        assert(hay@.subrange(i as int, i + needle@.len()) =~= needle@);
    }
    true
}

/// Whether `needle` occurs as a contiguous run of characters in `hay`.
pub fn str_contains(hay: &str, needle: &str) -> (r: bool)
    ensures
        r == has_substring(hay@, needle@),
{
    let hl = hay.unicode_len();
    let nl = needle.unicode_len();
    if nl > hl {
        return false;
    }
    let mut i: usize = 0;
    loop
        invariant
            hl == hay@.len(),
            nl == needle@.len(),
            nl <= hl,
            i <= hl - nl,
            forall|k: int| 0 <= k < i ==> #[trigger] hay@.subrange(k, k + needle@.len())
                != needle@,
        decreases hl - nl - i,
    {
        if matches_at(hay, needle, i) {
            return true;
        }
        if i == hl - nl {
            return false;
        }
        i += 1;
    }
}

/// The marker that identifies a potentially virtual adapter in its
/// description.
pub open spec fn virtual_marker() -> Seq<char> {
    "Virtual"@
}

/// Whether an adapter passes the adapter-level filter: operational status
/// "up", a physical adapter class, and no virtual-adapter marker in the
/// description.
pub open spec fn adapter_passes(a: RawAdapter) -> bool {
    &&& a.oper_status == IF_OPER_STATUS_UP
    &&& (a.if_type == IF_TYPE_ETHERNET_CSMACD || a.if_type == IF_TYPE_IEEE80211)
    &&& !has_substring(a.description@, virtual_marker())
}

/// What decoding a unicast entry's record yields; nothing for an absent
/// record.
pub open spec fn decoded_unicast(e: RawUnicastAddress) -> Option<IpAddress> {
    match e.address {
        Some(r) => decoded(r.family, r.data@),
        None => None,
    }
}

/// Whether a decoded entry is inserted at the front of the adapter's list:
/// only in privacy-preferring mode, and only for an IPv6 address of random
/// suffix origin.
pub open spec fn inserts_front(e: RawUnicastAddress, ip: IpAddress, static_v6: bool) -> bool {
    !static_v6 && e.suffix_origin == IP_SUFFIX_ORIGIN_RANDOM && ip is V6
}

/// The ordered address list of one adapter: each entry is decoded in
/// discovery order and appended, except that a random-origin IPv6 address
/// in privacy-preferring mode is inserted at the front.
pub open spec fn ordered_addrs(entries: Seq<RawUnicastAddress>, static_v6: bool) -> Seq<
    IpAddress,
>
    decreases entries.len(),
{
    if entries.len() == 0 {
        Seq::empty()
    } else {
        let prefix = ordered_addrs(entries.drop_last(), static_v6);
        match decoded_unicast(entries.last()) {
            Some(ip) => if inserts_front(entries.last(), ip, static_v6) {
                seq![ip] + prefix
            } else {
                prefix.push(ip)
            },
            None => prefix,
        }
    }
}

/// The interface record of one surviving adapter.
pub open spec fn interface_of(a: RawAdapter, static_v6: bool) -> InterfaceModel {
    InterfaceModel {
        desc: a.description@,
        name: a.name@,
        addrs: ordered_addrs(a.unicast@, static_v6),
    }
}

/// The interface records of the adapters that pass the filter, in the
/// table's order.
pub open spec fn enumerate_spec(adapters: Seq<RawAdapter>, static_v6: bool) -> Seq<
    InterfaceModel,
>
    decreases adapters.len(),
{
    if adapters.len() == 0 {
        Seq::empty()
    } else {
        let prefix = enumerate_spec(adapters.drop_last(), static_v6);
        if adapter_passes(adapters.last()) {
            prefix.push(interface_of(adapters.last(), static_v6))
        } else {
            prefix
        }
    }
}

/// Decodes and orders the addresses of one adapter's unicast entries.
fn collect_addrs(entries: &Vec<RawUnicastAddress>, static_v6: bool) -> (r: Vec<IpAddress>)
    ensures
        r@ == ordered_addrs(entries@, static_v6),
{
    let mut r: Vec<IpAddress> = Vec::new();
    let mut i: usize = 0;
    while i < entries.len()
        invariant
            i <= entries@.len(),
            r@ == ordered_addrs(entries@.take(i as int), static_v6),
        decreases entries@.len() - i,
    {
        let e = &entries[i];
        if let Some(ip) = crate::sockaddr::to_ipaddr(e.address.as_ref()) {
            if !static_v6 && e.suffix_origin == IP_SUFFIX_ORIGIN_RANDOM && ip.is_ipv6() {
                r.insert(0, ip);
                proof {
                    assert(r@ =~= seq![ip] + ordered_addrs(entries@.take(i as int), static_v6));
                }
            } else {
                r.push(ip);
            }
        }
        proof {
            assert(entries@.take(i + 1).drop_last() =~= entries@.take(i as int));
            assert(entries@.take(i + 1).last() == entries@[i as int]);
        }
        i += 1;
    }
    proof {
        assert(entries@.take(entries@.len() as int) =~= entries@);
    }
    r
}

/// Whether one adapter passes the adapter-level filter.
fn check_adapter(a: &RawAdapter) -> (r: bool)
    ensures
        r == adapter_passes(*a),
{
    a.oper_status == IF_OPER_STATUS_UP && (a.if_type == IF_TYPE_ETHERNET_CSMACD || a.if_type
        == IF_TYPE_IEEE80211) && !str_contains(a.description.as_str(), "Virtual")
}

/// Walks the adapter table and produces one interface record per adapter
/// that passes the filters, preserving the table's adapter order.  An
/// empty result is not an error: it means no adapter survived.
pub fn enumerate_adapters(adapters: &Vec<RawAdapter>, static_v6: bool) -> (r: Vec<Interface>)
    ensures
        r@.map_values(|iface: Interface| iface@) == enumerate_spec(adapters@, static_v6),
{
    let mut r: Vec<Interface> = Vec::new();
    let mut i: usize = 0;
    while i < adapters.len()
        invariant
            i <= adapters@.len(),
            r@.map_values(|iface: Interface| iface@) == enumerate_spec(
                adapters@.take(i as int),
                static_v6,
            ),
        decreases adapters@.len() - i,
    {
        let a = &adapters[i];
        if check_adapter(a) {
            let addrs = collect_addrs(&a.unicast, static_v6);
            let iface = Interface { desc: a.description.clone(), name: a.name.clone(), addrs };
            proof {
                assert(iface@ == interface_of(adapters@[i as int], static_v6));
            }
            r.push(iface);
        }
        proof {
            assert(adapters@.take(i + 1).drop_last() =~= adapters@.take(i as int));
            assert(adapters@.take(i + 1).last() == adapters@[i as int]);
            assert(r@.map_values(|iface: Interface| iface@) =~= enumerate_spec(
                adapters@.take(i + 1),
                static_v6,
            ));
        }
        i += 1;
    }
    proof {
        assert(adapters@.take(adapters@.len() as int) =~= adapters@);
    }
    r
}

/// Enumerates the host's interfaces for one cycle: reads the adapter table
/// once, over the recorded outcomes of the enumeration primitive's
/// attempts, and walks it.  Surfaces the table reader's error unchanged;
/// a table where no adapter survives the filters gives an empty list, not
/// an error.
pub fn list(script: Vec<ProbeOutcome>, static_v6: bool) -> (r: Result<Vec<Interface>, OsError>)
    ensures
        (match r {
            Ok(ifs) => reader_result(script@, 0) matches Ok(adapters) && ifs@.map_values(
                |iface: Interface| iface@,
            ) == enumerate_spec(adapters, static_v6),
            Err(e) => reader_result(script@, 0) == Err::<Seq<RawAdapter>, OsError>(e),
        }),
{
    let (res, _events) = read_table(script);
    match res {
        Ok(table) => Ok(enumerate_adapters(&table.adapters, static_v6)),
        Err(e) => Err(e),
    }
}

/// An adapter that fails the adapter-level filter leaves no trace in the
/// enumeration, whatever its address contents: removing it from the table
/// does not change the result.  In particular an adapter whose operational
/// status is not "up" is excluded, and so is a loopback-class adapter even
/// when it is up.
pub proof fn lemma_filtered_adapter_excluded(
    adapters: Seq<RawAdapter>,
    i: int,
    static_v6: bool,
)
    requires
        0 <= i < adapters.len(),
        adapters[i].oper_status != IF_OPER_STATUS_UP || adapters[i].if_type
            == IF_TYPE_SOFTWARE_LOOPBACK,
    ensures
        enumerate_spec(adapters.remove(i), static_v6) == enumerate_spec(adapters, static_v6),
    decreases adapters.len(),
{
    if i == adapters.len() - 1 {
        assert(adapters.remove(i) =~= adapters.drop_last());
    } else {
        lemma_filtered_adapter_excluded(adapters.drop_last(), i, static_v6);
        assert(adapters.remove(i).drop_last() =~= adapters.drop_last().remove(i));
        assert(adapters.remove(i).last() == adapters.last());
    }
}

} // verus!
