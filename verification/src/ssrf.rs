//! SSRF protection for outbound fetches.
//!
//! An address is refused when it is private, loopback, link-local or otherwise
//! non-routable, unless a network of the allowlist contains it.

use vstd::prelude::*;
use crate::text::{decimal, opt_str_view, push_decimal, push_str};

verus! {

/// An IP address: four octets for IPv4, eight 16-bit segments for IPv6.
#[derive(Clone, Copy, Debug, PartialEq, Eq)]
pub enum IpAddress {
    V4([u8; 4]),
    V6([u16; 8]),
}

/// 127.0.0.0/8
pub open spec fn v4_loopback(o: Seq<u8>) -> bool {
    o[0] == 127
}

/// 10.0.0.0/8, 172.16.0.0/12 and 192.168.0.0/16 (RFC 1918).
pub open spec fn v4_rfc1918(o: Seq<u8>) -> bool {
    ||| o[0] == 10
    ||| o[0] == 172 && 16 <= o[1] <= 31
    ||| o[0] == 192 && o[1] == 168
}

/// The IPv4 addresses that are never fetched without an allowlist entry.
pub open spec fn v4_is_private(o: Seq<u8>) -> bool {
    ||| v4_loopback(o)
    ||| v4_rfc1918(o)
    // 169.254.0.0/16 (link-local)
    ||| o[0] == 169 && o[1] == 254
    // 255.255.255.255 (broadcast)
    ||| o[0] == 255 && o[1] == 255 && o[2] == 255 && o[3] == 255
    // 0.0.0.0 (unspecified)
    ||| o[0] == 0 && o[1] == 0 && o[2] == 0 && o[3] == 0
    // 100.64.0.0/10 (CGNAT)
    ||| o[0] == 100 && 64 <= o[1] <= 127
    // 192.0.0.0/24 (IETF protocol assignments)
    ||| o[0] == 192 && o[1] == 0 && o[2] == 0
}

/// An IPv4-mapped IPv6 address, `::ffff:a.b.c.d`: the IPv4 host it reaches
/// is in its last 32 bits.
pub open spec fn v6_is_v4_mapped(s: Seq<u16>) -> bool {
    s[0] == 0 && s[1] == 0 && s[2] == 0 && s[3] == 0 && s[4] == 0 && s[5] == 0xffff
}

/// The octets of the IPv4 address inside an IPv4-mapped IPv6 address.
pub open spec fn v4_mapped_octets(s: Seq<u16>) -> Seq<u8> {
    seq![(s[6] >> 8u16) as u8, (s[6] & 0xffu16) as u8, (s[7] >> 8u16) as u8, (s[7] & 0xffu16) as u8]
}

/// The IPv6 addresses that are never fetched without an allowlist entry.
pub open spec fn v6_is_private(s: Seq<u16>) -> bool {
    // ::1 (loopback)
    ||| s =~= seq![0u16, 0, 0, 0, 0, 0, 0, 1]
    // :: (unspecified)
    ||| s =~= seq![0u16, 0, 0, 0, 0, 0, 0, 0]
    // fc00::/7 (unique local)
    ||| 0xFC00 <= s[0] <= 0xFDFF
    // fe80::/10 (link-local)
    ||| 0xFE80 <= s[0] <= 0xFEBF
    // ::ffff:0:0/96 (IPv4-mapped) reaching a refused IPv4 host
    ||| v6_is_v4_mapped(s) && v4_is_private(v4_mapped_octets(s))
}

/// `ip` is private, loopback, link-local or otherwise non-routable.
pub open spec fn ip_is_private(ip: IpAddress) -> bool {
    match ip {
        IpAddress::V4(o) => v4_is_private(o@),
        IpAddress::V6(s) => v6_is_private(s@),
    }
}

fn v4_is_loopback(o: &[u8; 4]) -> (r: bool)
    ensures
        r == v4_loopback(o@),
{
    o[0] == 127
}

fn v4_is_rfc1918(o: &[u8; 4]) -> (r: bool)
    ensures
        r == v4_rfc1918(o@),
{
    let b = o[1];
    assert((b & 0xf0) == 16u8 <==> 16 <= b <= 31) by (bit_vector);
    o[0] == 10 || (o[0] == 172 && (o[1] & 0xf0) == 16) || (o[0] == 192 && o[1] == 168)
}

fn v6_all_zero_until(s: &[u16; 8], n: usize) -> (r: bool)
    requires
        n <= 8,
    ensures
        r == (forall|i: int| 0 <= i < n ==> s@[i] == 0),
{
    let mut i: usize = 0;
    while i < n
        invariant
            i <= n <= 8,
            forall|j: int| 0 <= j < i ==> s@[j] == 0,
        decreases n - i,
    {
        if s[i] != 0 {
            return false;
        }
        i = i + 1;
    }
    true
}

fn v4_is_private_octets(o: &[u8; 4]) -> (r: bool)
    ensures
        r == v4_is_private(o@),
{
    let b1 = o[1];
    assert((b1 & 0xC0) == 64u8 <==> 64 <= b1 <= 127) by (bit_vector);
    v4_is_loopback(o) || v4_is_rfc1918(o) || (o[0] == 169 && o[1] == 254) || (o[0] == 255 && o[1]
        == 255 && o[2] == 255 && o[3] == 255) || (o[0] == 0 && o[1] == 0 && o[2] == 0 && o[3] == 0)
        || (o[0] == 100 && (o[1] & 0xC0) == 64) || (o[0] == 192 && o[1] == 0 && o[2] == 0)
}

/// Whether `ip` is private, loopback, link-local or otherwise unsuitable for
/// outbound fetches; an IPv4-mapped IPv6 address is judged by the IPv4
/// address inside it.
pub fn is_private_ip(ip: &IpAddress) -> (r: bool)
    ensures
        r == ip_is_private(*ip),
{
    match ip {
        IpAddress::V4(o) => v4_is_private_octets(o),
        IpAddress::V6(s) => {
            let s0 = s[0];
            assert((s0 & 0xFE00) == 0xFC00u16 <==> 0xFC00 <= s0 <= 0xFDFF) by (bit_vector);
            assert((s0 & 0xFFC0) == 0xFE80u16 <==> 0xFE80 <= s0 <= 0xFEBF) by (bit_vector);
            let head_zero = v6_all_zero_until(s, 7);
            let loopback = head_zero && s[7] == 1;
            let unspecified = head_zero && s[7] == 0;
            proof {
                if loopback {
                    assert(s@ =~= seq![0u16, 0, 0, 0, 0, 0, 0, 1]);
                }
                if unspecified {
                    assert(s@ =~= seq![0u16, 0, 0, 0, 0, 0, 0, 0]);
                }
            }
            let mapped = v6_all_zero_until(s, 5) && s[5] == 0xffff;
            let mapped_private = if mapped {
                let inner: [u8; 4] = [
                    (s[6] >> 8u16) as u8,
                    (s[6] & 0xffu16) as u8,
                    (s[7] >> 8u16) as u8,
                    (s[7] & 0xffu16) as u8,
                ];
                assert(inner@ =~= v4_mapped_octets(s@));
                v4_is_private_octets(&inner)
            } else {
                false
            };
            loopback || unspecified || (s[0] & 0xFE00) == 0xFC00 || (s[0] & 0xFFC0) == 0xFE80
                || mapped_private
        },
    }
}

/// The 32-bit value of the IPv4 address `o0.o1.o2.o3`.
pub open spec fn v4_value(o0: u8, o1: u8, o2: u8, o3: u8) -> u32 {
    ((o0 as u32) << 24u32) | ((o1 as u32) << 16u32) | ((o2 as u32) << 8u32) | (o3 as u32)
}

/// The 32-bit value of an IPv4 address, first octet most significant.
pub open spec fn v4_bits(o: Seq<u8>) -> u32 {
    v4_value(o[0], o[1], o[2], o[3])
}

/// The 128-bit value of the IPv6 address with segments `s0:..:s7`.
pub open spec fn v6_value(
    s0: u16,
    s1: u16,
    s2: u16,
    s3: u16,
    s4: u16,
    s5: u16,
    s6: u16,
    s7: u16,
) -> u128 {
    ((s0 as u128) << 112u128) | ((s1 as u128) << 96u128) | ((s2 as u128) << 80u128) | ((
    s3 as u128) << 64u128) | ((s4 as u128) << 48u128) | ((s5 as u128) << 32u128) | ((
    s6 as u128) << 16u128) | (s7 as u128)
}

/// The 128-bit value of an IPv6 address, first segment most significant.
pub open spec fn v6_bits(s: Seq<u16>) -> u128 {
    v6_value(s[0], s[1], s[2], s[3], s[4], s[5], s[6], s[7])
}

/// The netmask of a prefix of `prefix` bits in a 32-bit address.
pub open spec fn v4_netmask(prefix: u8) -> u32 {
    if prefix == 0 {
        0u32
    } else if prefix >= 32 {
        0xFFFF_FFFFu32
    } else {
        0xFFFF_FFFFu32 << ((32 - prefix) as u32)
    }
}

/// The netmask of a prefix of `prefix` bits in a 128-bit address.
pub open spec fn v6_netmask(prefix: u8) -> u128 {
    if prefix == 0 {
        0u128
    } else if prefix >= 128 {
        0xFFFF_FFFF_FFFF_FFFF_FFFF_FFFF_FFFF_FFFFu128
    } else {
        0xFFFF_FFFF_FFFF_FFFF_FFFF_FFFF_FFFF_FFFFu128 << ((128 - prefix) as u128)
    }
}

/// The longest prefix of the address family of `ip`.
pub open spec fn max_prefix_len(ip: IpAddress) -> u8 {
    match ip {
        IpAddress::V4(_) => 32,
        IpAddress::V6(_) => 128,
    }
}

/// `ip` lies between the network address (`addr` with the host bits cleared)
/// and the broadcast address (`addr` with the host bits set) of the network
/// `addr/prefix`, in the same address family.
pub open spec fn network_contains(addr: IpAddress, prefix: u8, ip: IpAddress) -> bool {
    match (addr, ip) {
        (IpAddress::V4(n), IpAddress::V4(a)) => {
            let m = v4_netmask(prefix);
            (v4_bits(n@) & m) <= v4_bits(a@) && v4_bits(a@) <= (v4_bits(n@) | !m)
        },
        (IpAddress::V6(n), IpAddress::V6(a)) => {
            let m = v6_netmask(prefix);
            (v6_bits(n@) & m) <= v6_bits(a@) && v6_bits(a@) <= (v6_bits(n@) | !m)
        },
        _ => false,
    }
}

/// An IP network in CIDR form, such as `192.168.1.0/24`.
///
/// The address keeps its host bits, as written; the prefix length never
/// exceeds the width of the address family.
#[derive(Clone, Copy, Debug)]
pub struct IpNetwork {
    addr: IpAddress,
    prefix_len: u8,
}

impl View for IpNetwork {
    type V = (IpAddress, u8);

    closed spec fn view(&self) -> (IpAddress, u8) {
        (self.addr, self.prefix_len)
    }
}

fn v4_to_bits(o: &[u8; 4]) -> (r: u32)
    ensures
        r == v4_bits(o@),
{
    ((o[0] as u32) << 24u32) | ((o[1] as u32) << 16u32) | ((o[2] as u32) << 8u32) | (o[3] as u32)
}

fn v6_to_bits(s: &[u16; 8]) -> (r: u128)
    ensures
        r == v6_bits(s@),
{
    ((s[0] as u128) << 112u128) | ((s[1] as u128) << 96u128) | ((s[2] as u128) << 80u128) | ((
    s[3] as u128) << 64u128) | ((s[4] as u128) << 48u128) | ((s[5] as u128) << 32u128) | ((
    s[6] as u128) << 16u128) | (s[7] as u128)
}

fn v4_mask(prefix: u8) -> (r: u32)
    ensures
        r == v4_netmask(prefix),
{
    if prefix == 0 {
        0
    } else if prefix >= 32 {
        0xFFFF_FFFF
    } else {
        0xFFFF_FFFFu32 << ((32 - prefix) as u32)
    }
}

fn v6_mask(prefix: u8) -> (r: u128)
    ensures
        r == v6_netmask(prefix),
{
    if prefix == 0 {
        0
    } else if prefix >= 128 {
        0xFFFF_FFFF_FFFF_FFFF_FFFF_FFFF_FFFF_FFFF
    } else {
        0xFFFF_FFFF_FFFF_FFFF_FFFF_FFFF_FFFF_FFFFu128 << ((128 - prefix) as u128)
    }
}

impl IpNetwork {
    /// The prefix never exceeds the width of the address family.
    #[verifier::type_invariant]
    spec fn well_formed(self) -> bool {
        self.prefix_len <= max_prefix_len(self.addr)
    }

    /// The network `addr/prefix_len`; `None` when the prefix is longer than
    /// the address family allows (32 bits for IPv4, 128 for IPv6).
    pub fn new(addr: IpAddress, prefix_len: u8) -> (r: Option<IpNetwork>)
        ensures
            r is Some <==> prefix_len <= max_prefix_len(addr),
            r matches Some(net) ==> net@ == (addr, prefix_len),
    {
        let max: u8 = match addr {
            IpAddress::V4(_) => 32,
            IpAddress::V6(_) => 128,
        };
        if prefix_len <= max {
            Some(IpNetwork { addr, prefix_len })
        } else {
            None
        }
    }

    /// The address the network was written with.
    pub fn addr(&self) -> (r: IpAddress)
        ensures
            r == self@.0,
    {
        self.addr
    }

    /// The prefix length.
    pub fn prefix_len(&self) -> (r: u8)
        ensures
            r == self@.1,
            r <= max_prefix_len(self@.0),
    {
        proof {
            use_type_invariant(self);
        }
        self.prefix_len
    }

    /// Whether `ip` belongs to this network.
    pub fn contains(&self, ip: &IpAddress) -> (r: bool)
        ensures
            r == network_contains(self@.0, self@.1, *ip),
    {
        match (&self.addr, ip) {
            (IpAddress::V4(n), IpAddress::V4(a)) => {
                let m = v4_mask(self.prefix_len);
                let nb = v4_to_bits(n);
                let ab = v4_to_bits(a);
                (nb & m) <= ab && ab <= (nb | !m)
            },
            (IpAddress::V6(n), IpAddress::V6(a)) => {
                let m = v6_mask(self.prefix_len);
                let nb = v6_to_bits(n);
                let ab = v6_to_bits(a);
                (nb & m) <= ab && ab <= (nb | !m)
            },
            _ => false,
        }
    }
}

/// The network `addr/prefix` admits `ip`: it contains it, or `ip` is an
/// IPv4-mapped IPv6 address whose IPv4 host the IPv4 network contains.
pub open spec fn network_admits(addr: IpAddress, prefix: u8, ip: IpAddress) -> bool {
    ||| network_contains(addr, prefix, ip)
    ||| match (addr, ip) {
        (IpAddress::V4(n), IpAddress::V6(s)) => v6_is_v4_mapped(s@) && {
            let m = v4_netmask(prefix);
            let a = v4_bits(v4_mapped_octets(s@));
            (v4_bits(n@) & m) <= a && a <= (v4_bits(n@) | !m)
        },
        _ => false,
    }
}

/// Some network of `allowlist` admits `ip`.
pub open spec fn allowlisted(ip: IpAddress, allowlist: Seq<IpNetwork>) -> bool {
    exists|i: int| 0 <= i < allowlist.len() && network_admits(allowlist[i]@.0, allowlist[i]@.1, ip)
}

/// `ip` is refused: it is private and no network of `allowlist` admits it.
pub open spec fn ip_blocked(ip: IpAddress, allowlist: Seq<IpNetwork>) -> bool {
    ip_is_private(ip) && !allowlisted(ip, allowlist)
}

/// The IPv4 host of an IPv4-mapped IPv6 address; `None` for any other
/// address.
fn mapped_v4_host(ip: &IpAddress) -> (r: Option<IpAddress>)
    ensures
        match *ip {
            IpAddress::V6(s) => if v6_is_v4_mapped(s@) {
                r matches Some(IpAddress::V4(o)) && o@ == v4_mapped_octets(s@)
            } else {
                r is None
            },
            IpAddress::V4(_) => r is None,
        },
{
    match ip {
        IpAddress::V4(_) => None,
        IpAddress::V6(s) => {
            if v6_all_zero_until(s, 5) && s[5] == 0xffff {
                let inner: [u8; 4] = [
                    (s[6] >> 8u16) as u8,
                    (s[6] & 0xffu16) as u8,
                    (s[7] >> 8u16) as u8,
                    (s[7] & 0xffu16) as u8,
                ];
                assert(inner@ =~= v4_mapped_octets(s@));
                Some(IpAddress::V4(inner))
            } else {
                None
            }
        },
    }
}

/// Whether some network of the allowlist admits `ip` (an IPv4-mapped
/// address is also matched, by its IPv4 host, against IPv4 networks).
pub fn is_ssrf_allowed(ip: &IpAddress, allowlist: &[IpNetwork]) -> (r: bool)
    ensures
        r == allowlisted(*ip, allowlist@),
{
    let host = mapped_v4_host(ip);
    let mut i: usize = 0;
    while i < allowlist.len()
        invariant
            i <= allowlist@.len(),
            forall|j: int| 0 <= j < i ==> !network_admits(allowlist@[j]@.0, allowlist@[j]@.1, *ip),
            match *ip {
                IpAddress::V6(s) => if v6_is_v4_mapped(s@) {
                    host matches Some(IpAddress::V4(o)) && o@ == v4_mapped_octets(s@)
                } else {
                    host is None
                },
                IpAddress::V4(_) => host is None,
            },
        decreases allowlist@.len() - i,
    {
        let net = allowlist[i];
        let direct = net.contains(ip);
        let through_host = match &host {
            Some(h) => net.contains(h),
            None => false,
        };
        if direct || through_host {
            return true;
        }
        i = i + 1;
    }
    false
}

/// An address may be fetched: it is public, or some network of the allowlist
/// contains it.
pub proof fn lemma_public_always_allowed(ip: IpAddress, allowlist: Seq<IpNetwork>)
    requires
        !ip_is_private(ip),
    ensures
        !ip_blocked(ip, allowlist),
{
}

/// Widening the allowlist never refuses an address that it accepted before.
pub proof fn lemma_allowlist_widening(
    ip: IpAddress,
    narrow: Seq<IpNetwork>,
    wide: Seq<IpNetwork>,
)
    requires
        forall|i: int| 0 <= i < narrow.len() ==> wide.contains(#[trigger] narrow[i]),
    ensures
        allowlisted(ip, narrow) ==> allowlisted(ip, wide),
        ip_blocked(ip, wide) ==> ip_blocked(ip, narrow),
{
    if allowlisted(ip, narrow) {
        let i = choose|i: int|
            0 <= i < narrow.len() && network_admits(narrow[i]@.0, narrow[i]@.1, ip);
        assert(wide.contains(narrow[i]));
        let j = choose|j: int| 0 <= j < wide.len() && wide[j] == narrow[i];
        assert(network_admits(wide[j]@.0, wide[j]@.1, ip));
    }
}

/// An IPv4-mapped IPv6 address is refused only where its IPv4 host would be
/// refused: it is private exactly when the host is, and every network that
/// admits the host admits it.
pub proof fn lemma_mapped_follows_ipv4_host(s: [u16; 8], o: [u8; 4], allowlist: Seq<IpNetwork>)
    requires
        v6_is_v4_mapped(s@),
        o@ == v4_mapped_octets(s@),
    ensures
        ip_is_private(IpAddress::V6(s)) == ip_is_private(IpAddress::V4(o)),
        allowlisted(IpAddress::V4(o), allowlist) ==> allowlisted(IpAddress::V6(s), allowlist),
        ip_blocked(IpAddress::V6(s), allowlist) ==> ip_blocked(IpAddress::V4(o), allowlist),
{
    assert(seq![0u16, 0, 0, 0, 0, 0, 0, 1][5] == 0);
    assert(seq![0u16, 0, 0, 0, 0, 0, 0, 0][5] == 0);
    if allowlisted(IpAddress::V4(o), allowlist) {
        let i = choose|i: int|
            0 <= i < allowlist.len() && network_admits(
                allowlist[i]@.0,
                allowlist[i]@.1,
                IpAddress::V4(o),
            );
        assert(network_admits(allowlist[i]@.0, allowlist[i]@.1, IpAddress::V6(s)));
    }
}

/// With an empty allowlist exactly the private addresses are refused.
pub proof fn lemma_empty_allowlist(ip: IpAddress)
    ensures
        ip_blocked(ip, Seq::empty()) == ip_is_private(ip),
{
}

/// A network contains the address it was written with.
pub proof fn lemma_network_contains_own_address(addr: IpAddress, prefix: u8)
    ensures
        network_contains(addr, prefix, addr),
{
    match addr {
        IpAddress::V4(o) => {
            let n = v4_bits(o@);
            let m = v4_netmask(prefix);
            assert((n & m) <= n && n <= (n | !m)) by (bit_vector);
        },
        IpAddress::V6(s) => {
            let n = v6_bits(s@);
            let m = v6_netmask(prefix);
            assert((n & m) <= n && n <= (n | !m)) by (bit_vector);
        },
    }
}

/// A network of prefix length zero contains every address of its family and
/// none of the other.
pub proof fn lemma_zero_prefix_contains_family(addr: IpAddress, ip: IpAddress)
    ensures
        network_contains(addr, 0, ip) == (max_prefix_len(addr) == max_prefix_len(ip)),
{
    match (addr, ip) {
        (IpAddress::V4(n), IpAddress::V4(a)) => {
            let nb = v4_bits(n@);
            let ab = v4_bits(a@);
            assert((nb & 0u32) <= ab && ab <= (nb | !0u32)) by (bit_vector);
        },
        (IpAddress::V6(n), IpAddress::V6(a)) => {
            let nb = v6_bits(n@);
            let ab = v6_bits(a@);
            assert((nb & 0u128) <= ab && ab <= (nb | !0u128)) by (bit_vector);
        },
        _ => {},
    }
}

/// The first `p` bits of two 32-bit values agree exactly when the second lies
/// between the first with its low `32 - p` bits cleared and with them set.
proof fn lemma_v4_bounds_iff_high_bits(nb: u32, ab: u32, k: u32)
    requires
        k < 32,
    ensures
        ((nb & (0xFFFF_FFFFu32 << k)) <= ab && ab <= (nb | !(0xFFFF_FFFFu32 << k))) == ((nb >> k)
            == (ab >> k)),
{
    assert(((nb & (0xFFFF_FFFFu32 << k)) <= ab && ab <= (nb | !(0xFFFF_FFFFu32 << k))) == ((nb
        >> k) == (ab >> k))) by (bit_vector)
        requires
            k < 32,
    ;
}

/// The first `p` bits of two 128-bit values agree exactly when the second
/// lies between the first with its low `128 - p` bits cleared and with them
/// set.
#[verifier::rlimit(100)]
proof fn lemma_v6_bounds_iff_high_bits(nb: u128, ab: u128, k: u128)
    requires
        k < 128,
    ensures
        ((nb & (0xFFFF_FFFF_FFFF_FFFF_FFFF_FFFF_FFFF_FFFFu128 << k)) <= ab && ab <= (nb | !(
        0xFFFF_FFFF_FFFF_FFFF_FFFF_FFFF_FFFF_FFFFu128 << k))) == ((nb >> k) == (ab >> k)),
{
    assert(((nb & (0xFFFF_FFFF_FFFF_FFFF_FFFF_FFFF_FFFF_FFFFu128 << k)) <= ab && ab <= (nb | !(
    0xFFFF_FFFF_FFFF_FFFF_FFFF_FFFF_FFFF_FFFFu128 << k))) == ((nb >> k) == (ab >> k)))
        by (bit_vector)
        requires
            k < 128,
    ;
}

/// The IPv4 netmask of a prefix of `p` bits has exactly `p` leading one bits
/// and no other: it is zero for `p == 0`, and the complement of the all-ones
/// value shifted right by `p` otherwise.
pub proof fn lemma_v4_netmask_leading_ones(p: u8)
    requires
        0 < p < 32,
    ensures
        v4_netmask(p) == !(0xFFFF_FFFFu32 >> (p as u32)),
        v4_netmask(0) == 0,
        v4_netmask(32) == 0xFFFF_FFFFu32,
{
    let q = p as u32;
    let k = (32 - p) as u32;
    assert(k == 32 - q);
    assert((0xFFFF_FFFFu32 << ((32 - q) as u32)) == !(0xFFFF_FFFFu32 >> q)) by (bit_vector)
        requires
            0 < q < 32,
    ;
}

/// The IPv6 netmask of a prefix of `p` bits has exactly `p` leading one bits
/// and no other.
pub proof fn lemma_v6_netmask_leading_ones(p: u8)
    requires
        0 < p < 128,
    ensures
        v6_netmask(p) == !(0xFFFF_FFFF_FFFF_FFFF_FFFF_FFFF_FFFF_FFFFu128 >> (p as u128)),
        v6_netmask(0) == 0,
        v6_netmask(128) == 0xFFFF_FFFF_FFFF_FFFF_FFFF_FFFF_FFFF_FFFFu128,
{
    let q = p as u128;
    let k = (128 - p) as u128;
    assert(k == 128 - q);
    assert((0xFFFF_FFFF_FFFF_FFFF_FFFF_FFFF_FFFF_FFFFu128 << ((128 - q) as u128)) == !(
    0xFFFF_FFFF_FFFF_FFFF_FFFF_FFFF_FFFF_FFFFu128 >> q)) by (bit_vector)
        requires
            0 < q < 128,
    ;
}

/// An IPv4 network `n/p` contains an IPv4 address `a` exactly when the first
/// `p` bits of `a` equal those of `n` (every address, for `p == 0`).
pub proof fn lemma_v4_contains_iff_prefix_match(n: [u8; 4], a: [u8; 4], p: u8)
    requires
        p <= 32,
    ensures
        network_contains(IpAddress::V4(n), p, IpAddress::V4(a)) == (p == 0 || (v4_bits(n@) >> ((
        32 - p) as u32)) == (v4_bits(a@) >> ((32 - p) as u32))),
{
    let nb = v4_bits(n@);
    let ab = v4_bits(a@);
    if p == 0 {
        lemma_zero_prefix_contains_family(IpAddress::V4(n), IpAddress::V4(a));
    } else {
        let k = (32 - p) as u32;
        lemma_v4_bounds_iff_high_bits(nb, ab, k);
        if p == 32 {
            assert(k == 0);
            assert((0xFFFF_FFFFu32 << 0u32) == 0xFFFF_FFFFu32) by (bit_vector);
        }
    }
}

/// An IPv6 network `n/p` contains an IPv6 address `a` exactly when the first
/// `p` bits of `a` equal those of `n` (every address, for `p == 0`).
pub proof fn lemma_v6_contains_iff_prefix_match(n: [u16; 8], a: [u16; 8], p: u8)
    requires
        p <= 128,
    ensures
        network_contains(IpAddress::V6(n), p, IpAddress::V6(a)) == (p == 0 || (v6_bits(n@) >> ((
        128 - p) as u128)) == (v6_bits(a@) >> ((128 - p) as u128))),
{
    let nb = v6_bits(n@);
    let ab = v6_bits(a@);
    if p == 0 {
        lemma_zero_prefix_contains_family(IpAddress::V6(n), IpAddress::V6(a));
    } else {
        let k = (128 - p) as u128;
        lemma_v6_bounds_iff_high_bits(nb, ab, k);
        if p == 128 {
            assert(k == 0);
            assert((0xFFFF_FFFF_FFFF_FFFF_FFFF_FFFF_FFFF_FFFFu128 << 0u128)
                == 0xFFFF_FFFF_FFFF_FFFF_FFFF_FFFF_FFFF_FFFFu128) by (bit_vector);
        }
    }
}

/// Why an outbound fetch was refused.
#[derive(Clone, Debug)]
pub enum SsrfError {
    /// The URL names no host.
    NoHost,
    /// `host` is, or resolves to, the refused address `ip`.
    Blocked { host: String, ip: IpAddress },
    /// Resolving `host` failed with `reason`.
    ResolveFailed { host: String, reason: String },
    /// `host` resolved to no address at all.
    NoAddresses { host: String },
}

#[verifier::external_type_specification]
#[verifier::external_body]
pub struct ExUrl(url::Url);

/// What `url::Url::host_str` gives for `url`: the host as written in the
/// URL (domain, or IP address with IPv6 in brackets), if it has one.
pub uninterp spec fn url_host(url: url::Url) -> Option<Seq<char>>;

/// What `url::Url::port_or_known_default` gives for `url`: its explicit
/// port, else the default port of its scheme, if known.
pub uninterp spec fn url_port(url: url::Url) -> Option<u16>;

/// `url::Url::host_str`: its result is named [`url_host`], a function of the
/// URL alone (it slices the URL's serialization at the stored host bounds).
#[verifier::external_body]
fn url_host_str(url: &url::Url) -> (r: Option<&str>)
    ensures
        opt_str_view(r) == url_host(*url),
{
    url.host_str()
}

/// `url::Url::port_or_known_default`: its result is named [`url_port`], a
/// function of the URL alone (its port field, else the scheme's default).
#[verifier::external_body]
fn url_port_or_known_default(url: &url::Url) -> (r: Option<u16>)
    ensures
        r == url_port(*url),
{
    url.port_or_known_default()
}

/// The host to check, or the refusal of a URL without one.
pub fn require_host(host: Option<&str>) -> (r: Result<String, SsrfError>)
    ensures
        match host {
            Some(h) => r matches Ok(s) && s@ == h@,
            None => r matches Err(SsrfError::NoHost),
        },
{
    match host {
        Some(h) => Ok(h.to_string()),
        None => Err(SsrfError::NoHost),
    }
}

/// The host of `url` (see [`require_host`]); a URL without host is refused.
pub fn ssrf_host(url: &url::Url) -> (r: Result<String, SsrfError>)
    ensures
        match url_host(*url) {
            Some(h) => r matches Ok(s) && s@ == h,
            None => r matches Err(SsrfError::NoHost),
        },
{
    require_host(url_host_str(url))
}

/// The `host:port` to resolve: the port of the URL, 443 when it has none and
/// its scheme has no known default.
pub open spec fn lookup_address_for(host: Seq<char>, port: Option<u16>) -> Seq<char> {
    let p: u16 = match port {
        Some(p) => p,
        None => 443,
    };
    host + ":"@ + decimal(p as nat)
}

/// The `host:port` to resolve; see [`lookup_address_for`].
pub fn lookup_address(host: &str, port: Option<u16>) -> (r: String)
    ensures
        r@ == lookup_address_for(host@, port),
{
    let p: u16 = match port {
        Some(p) => p,
        None => 443,
    };
    let mut s = String::new();
    push_str(&mut s, host);
    push_str(&mut s, ":");
    push_decimal(&mut s, p as u128);
    s
}

/// The `host:port` to resolve for `host` of `url`, with the port that the
/// URL gives.
pub fn ssrf_lookup_address(url: &url::Url, host: &str) -> (r: String)
    ensures
        r@ == lookup_address_for(host@, url_port(*url)),
{
    lookup_address(host, url_port_or_known_default(url))
}

/// Check a host that is an IP address: refused exactly when the address is
/// private and not allowlisted.
pub fn ssrf_check_literal(host: &str, ip: IpAddress, allowlist: &[IpNetwork]) -> (r: Result<
    (),
    SsrfError,
>)
    ensures
        r is Ok <==> !ip_blocked(ip, allowlist@),
        r is Err ==> (r matches Err(SsrfError::Blocked { host: h, ip: a }) && h@ == host@ && a
            == ip),
{
    if is_private_ip(&ip) && !is_ssrf_allowed(&ip, allowlist) {
        Err(SsrfError::Blocked { host: host.to_string(), ip })
    } else {
        Ok(())
    }
}

/// What the check does next for the host of `url`.
pub enum SsrfNext {
    /// The host is an IP address, and this is the verdict on it.
    Verdict(Result<(), SsrfError>),
    /// The host is a name: resolve this `host:port`, then judge the answer
    /// with [`ssrf_check_resolved`].
    Resolve(String),
}

/// The step after the host of `url` is known: `literal` is the host read as
/// an IP address, when it is one. An address is judged at once (see
/// [`ssrf_check_literal`]); a name is to be resolved at the URL's port.
pub fn ssrf_next_step(
    url: &url::Url,
    host: &str,
    literal: Option<IpAddress>,
    allowlist: &[IpNetwork],
) -> (r: SsrfNext)
    ensures
        match literal {
            Some(ip) => r matches SsrfNext::Verdict(v) && (v is Ok <==> !ip_blocked(
                ip,
                allowlist@,
            )) && (v is Err ==> (v matches Err(SsrfError::Blocked { host: h, ip: a }) && h@
                == host@ && a == ip)),
            None => r matches SsrfNext::Resolve(target) && target@ == lookup_address_for(
                host@,
                url_port(*url),
            ),
        },
{
    match literal {
        Some(ip) => SsrfNext::Verdict(ssrf_check_literal(host, ip, allowlist)),
        None => SsrfNext::Resolve(ssrf_lookup_address(url, host)),
    }
}

/// Every address that a host resolved to may be fetched, and there is at
/// least one.
pub open spec fn resolved_acceptable(addrs: Seq<IpAddress>, allowlist: Seq<IpNetwork>) -> bool {
    addrs.len() > 0 && forall|i: int| 0 <= i < addrs.len() ==> !ip_blocked(#[trigger] addrs[i], allowlist)
}

/// Check the outcome of resolving `host`: a failed or empty resolution is
/// refused, and so is a host with a refused address, the first one in order
/// being reported; otherwise the host may be fetched.
pub fn ssrf_check_resolved(
    host: &str,
    resolved: Result<Vec<IpAddress>, String>,
    allowlist: &[IpNetwork],
) -> (r: Result<(), SsrfError>)
    ensures
        match resolved {
            Err(reason) => r matches Err(SsrfError::ResolveFailed { host: h, reason: e }) && h@
                == host@ && e@ == reason@,
            Ok(addrs) => {
                &&& r is Ok <==> resolved_acceptable(addrs@, allowlist@)
                &&& addrs.len() == 0 ==> (r matches Err(SsrfError::NoAddresses { host: h }) && h@
                    == host@)
                &&& addrs.len() > 0 && r is Err ==> (r matches Err(
                    SsrfError::Blocked { host: h, ip },
                ) && h@ == host@ && exists|i: int|
                    0 <= i < addrs.len() && addrs[i] == ip && ip_blocked(ip, allowlist@)
                        && forall|j: int| 0 <= j < i ==> !ip_blocked(#[trigger] addrs[j], allowlist@))
            },
        },
{
    let addrs = match resolved {
        Err(reason) => {
            return Err(SsrfError::ResolveFailed { host: host.to_string(), reason });
        },
        Ok(addrs) => addrs,
    };
    if addrs.len() == 0 {
        return Err(SsrfError::NoAddresses { host: host.to_string() });
    }
    let mut i: usize = 0;
    while i < addrs.len()
        invariant
            i <= addrs@.len(),
            resolved == Ok::<Vec<IpAddress>, String>(addrs),
            forall|j: int| 0 <= j < i ==> !ip_blocked(#[trigger] addrs@[j], allowlist@),
        decreases addrs@.len() - i,
    {
        let ip = addrs[i];
        if is_private_ip(&ip) && !is_ssrf_allowed(&ip, allowlist) {
            return Err(SsrfError::Blocked { host: host.to_string(), ip });
        }
        i = i + 1;
    }
    Ok(())
}


/// The refused ranges in CIDR form: 127.0.0.0/8, 10.0.0.0/8,
/// 172.16.0.0/12, 192.168.0.0/16, 169.254.0.0/16, 255.255.255.255/32,
/// 0.0.0.0/32, 100.64.0.0/10, 192.0.0.0/24, ::1/128, ::/128, fc00::/7,
/// fe80::/10, and the IPv4-mapped form (`::ffff:0:0/96`) of each IPv4 range.
pub open spec fn in_refused_range(ip: IpAddress) -> bool {
    ||| network_contains(IpAddress::V4([127, 0, 0, 0]), 8, ip)
    ||| network_contains(IpAddress::V4([10, 0, 0, 0]), 8, ip)
    ||| network_contains(IpAddress::V4([172, 16, 0, 0]), 12, ip)
    ||| network_contains(IpAddress::V4([192, 168, 0, 0]), 16, ip)
    ||| network_contains(IpAddress::V4([169, 254, 0, 0]), 16, ip)
    ||| network_contains(IpAddress::V4([255, 255, 255, 255]), 32, ip)
    ||| network_contains(IpAddress::V4([0, 0, 0, 0]), 32, ip)
    ||| network_contains(IpAddress::V4([100, 64, 0, 0]), 10, ip)
    ||| network_contains(IpAddress::V4([192, 0, 0, 0]), 24, ip)
    ||| network_contains(IpAddress::V6([0, 0, 0, 0, 0, 0, 0, 1]), 128, ip)
    ||| network_contains(IpAddress::V6([0, 0, 0, 0, 0, 0, 0, 0]), 128, ip)
    ||| network_contains(IpAddress::V6([0xfc00, 0, 0, 0, 0, 0, 0, 0]), 7, ip)
    ||| network_contains(IpAddress::V6([0xfe80, 0, 0, 0, 0, 0, 0, 0]), 10, ip)
    ||| network_contains(IpAddress::V6([0, 0, 0, 0, 0, 0xffff, 0x7f00, 0x0]), 104, ip)
    ||| network_contains(IpAddress::V6([0, 0, 0, 0, 0, 0xffff, 0xa00, 0x0]), 104, ip)
    ||| network_contains(IpAddress::V6([0, 0, 0, 0, 0, 0xffff, 0xac10, 0x0]), 108, ip)
    ||| network_contains(IpAddress::V6([0, 0, 0, 0, 0, 0xffff, 0xc0a8, 0x0]), 112, ip)
    ||| network_contains(IpAddress::V6([0, 0, 0, 0, 0, 0xffff, 0xa9fe, 0x0]), 112, ip)
    ||| network_contains(IpAddress::V6([0, 0, 0, 0, 0, 0xffff, 0xffff, 0xffff]), 128, ip)
    ||| network_contains(IpAddress::V6([0, 0, 0, 0, 0, 0xffff, 0x0, 0x0]), 128, ip)
    ||| network_contains(IpAddress::V6([0, 0, 0, 0, 0, 0xffff, 0x6440, 0x0]), 106, ip)
    ||| network_contains(IpAddress::V6([0, 0, 0, 0, 0, 0xffff, 0xc000, 0x0]), 120, ip)
}

/// An address is private exactly when one of the refused CIDR ranges
/// contains it.
pub proof fn lemma_private_iff_in_refused_range(ip: IpAddress)
    ensures
        ip_is_private(ip) == in_refused_range(ip),
{
    match ip {
        IpAddress::V4(a) => {
            let a0 = a@[0];
            let a1 = a@[1];
            let a2 = a@[2];
            let a3 = a@[3];
            assert(((v4_value(127, 0, 0, 0) & v4_netmask(8)) <= v4_value(a0, a1, a2, a3)
                && v4_value(a0, a1, a2, a3) <= (v4_value(127, 0, 0, 0) | !v4_netmask(8))) == (a0
                == 127)) by (bit_vector);
            assert(((v4_value(10, 0, 0, 0) & v4_netmask(8)) <= v4_value(a0, a1, a2, a3)
                && v4_value(a0, a1, a2, a3) <= (v4_value(10, 0, 0, 0) | !v4_netmask(8))) == (a0
                == 10)) by (bit_vector);
            assert(((v4_value(172, 16, 0, 0) & v4_netmask(12)) <= v4_value(a0, a1, a2, a3)
                && v4_value(a0, a1, a2, a3) <= (v4_value(172, 16, 0, 0) | !v4_netmask(12))) == (
            a0 == 172 && 16 <= a1 && a1 <= 31)) by (bit_vector);
            assert(((v4_value(192, 168, 0, 0) & v4_netmask(16)) <= v4_value(a0, a1, a2, a3)
                && v4_value(a0, a1, a2, a3) <= (v4_value(192, 168, 0, 0) | !v4_netmask(16))) == (
            a0 == 192 && a1 == 168)) by (bit_vector);
            assert(((v4_value(169, 254, 0, 0) & v4_netmask(16)) <= v4_value(a0, a1, a2, a3)
                && v4_value(a0, a1, a2, a3) <= (v4_value(169, 254, 0, 0) | !v4_netmask(16))) == (
            a0 == 169 && a1 == 254)) by (bit_vector);
            assert(((v4_value(255, 255, 255, 255) & v4_netmask(32)) <= v4_value(a0, a1, a2, a3)
                && v4_value(a0, a1, a2, a3) <= (v4_value(255, 255, 255, 255) | !v4_netmask(32)))
                == (a0 == 255 && a1 == 255 && a2 == 255 && a3 == 255)) by (bit_vector);
            assert(((v4_value(0, 0, 0, 0) & v4_netmask(32)) <= v4_value(a0, a1, a2, a3)
                && v4_value(a0, a1, a2, a3) <= (v4_value(0, 0, 0, 0) | !v4_netmask(32))) == (a0
                == 0 && a1 == 0 && a2 == 0 && a3 == 0)) by (bit_vector);
            assert(((v4_value(100, 64, 0, 0) & v4_netmask(10)) <= v4_value(a0, a1, a2, a3)
                && v4_value(a0, a1, a2, a3) <= (v4_value(100, 64, 0, 0) | !v4_netmask(10))) == (
            a0 == 100 && 64 <= a1 && a1 <= 127)) by (bit_vector);
            assert(((v4_value(192, 0, 0, 0) & v4_netmask(24)) <= v4_value(a0, a1, a2, a3)
                && v4_value(a0, a1, a2, a3) <= (v4_value(192, 0, 0, 0) | !v4_netmask(24))) == (a0
                == 192 && a1 == 0 && a2 == 0)) by (bit_vector);
        },
        IpAddress::V6(s) => {
            let s0 = s@[0];
            let s1 = s@[1];
            let s2 = s@[2];
            let s3 = s@[3];
            let s4 = s@[4];
            let s5 = s@[5];
            let s6 = s@[6];
            let s7 = s@[7];
            let v = v6_value(s0, s1, s2, s3, s4, s5, s6, s7);
            assert(((v6_value(0, 0, 0, 0, 0, 0, 0, 1) & v6_netmask(128)) <= v6_value(s0, s1, s2, s3, s4, s5, s6, s7)
                && v6_value(s0, s1, s2, s3, s4, s5, s6, s7) <= (v6_value(0, 0, 0, 0, 0, 0, 0, 1) | !v6_netmask(128))) == (
            s0 == 0 && s1 == 0 && s2 == 0 && s3 == 0 && s4 == 0 && s5 == 0 && s6 == 0 && s7 == 1))
                by (bit_vector);
            assert(((v6_value(0, 0, 0, 0, 0, 0, 0, 0) & v6_netmask(128)) <= v6_value(s0, s1, s2, s3, s4, s5, s6, s7)
                && v6_value(s0, s1, s2, s3, s4, s5, s6, s7) <= (v6_value(0, 0, 0, 0, 0, 0, 0, 0) | !v6_netmask(128))) == (
            s0 == 0 && s1 == 0 && s2 == 0 && s3 == 0 && s4 == 0 && s5 == 0 && s6 == 0 && s7 == 0))
                by (bit_vector);
            assert(((v6_value(0xfc00, 0, 0, 0, 0, 0, 0, 0) & v6_netmask(7)) <= v6_value(s0, s1, s2, s3, s4, s5, s6, s7)
                && v6_value(s0, s1, s2, s3, s4, s5, s6, s7) <= (v6_value(0xfc00, 0, 0, 0, 0, 0, 0, 0) | !v6_netmask(7))) == (
            0xfc00 <= s0 && s0 <= 0xfdff)) by (bit_vector);
            assert(((v6_value(0xfe80, 0, 0, 0, 0, 0, 0, 0) & v6_netmask(10)) <= v6_value(s0, s1, s2, s3, s4, s5, s6, s7)
                && v6_value(s0, s1, s2, s3, s4, s5, s6, s7) <= (v6_value(0xfe80, 0, 0, 0, 0, 0, 0, 0) | !v6_netmask(10))) == (
            0xfe80 <= s0 && s0 <= 0xfebf)) by (bit_vector);
            assert(((v6_value(0, 0, 0, 0, 0, 0xffff, 0x7f00, 0x0) & v6_netmask(104)) <= v6_value(s0, s1, s2, s3, s4, s5, s6, s7) && v6_value(s0, s1, s2, s3, s4, s5, s6, s7) <= (v6_value(0, 0, 0, 0, 0, 0xffff, 0x7f00, 0x0) | !v6_netmask(104))) == (
            s0 == 0 && s1 == 0 && s2 == 0 && s3 == 0 && s4 == 0 && s5 == 0xffff && ((s6 >> 8u16) as u8) == 127u8)) by (bit_vector);
            assert(((v6_value(0, 0, 0, 0, 0, 0xffff, 0xa00, 0x0) & v6_netmask(104)) <= v6_value(s0, s1, s2, s3, s4, s5, s6, s7) && v6_value(s0, s1, s2, s3, s4, s5, s6, s7) <= (v6_value(0, 0, 0, 0, 0, 0xffff, 0xa00, 0x0) | !v6_netmask(104))) == (
            s0 == 0 && s1 == 0 && s2 == 0 && s3 == 0 && s4 == 0 && s5 == 0xffff && ((s6 >> 8u16) as u8) == 10u8)) by (bit_vector);
            assert(((v6_value(0, 0, 0, 0, 0, 0xffff, 0xac10, 0x0) & v6_netmask(108)) <= v6_value(s0, s1, s2, s3, s4, s5, s6, s7) && v6_value(s0, s1, s2, s3, s4, s5, s6, s7) <= (v6_value(0, 0, 0, 0, 0, 0xffff, 0xac10, 0x0) | !v6_netmask(108))) == (
            s0 == 0 && s1 == 0 && s2 == 0 && s3 == 0 && s4 == 0 && s5 == 0xffff && ((s6 >> 8u16) as u8) == 172u8 && 16u8 <= ((s6 & 0xffu16) as u8) && ((s6 & 0xffu16) as u8) <= 31u8)) by (bit_vector);
            assert(((v6_value(0, 0, 0, 0, 0, 0xffff, 0xc0a8, 0x0) & v6_netmask(112)) <= v6_value(s0, s1, s2, s3, s4, s5, s6, s7) && v6_value(s0, s1, s2, s3, s4, s5, s6, s7) <= (v6_value(0, 0, 0, 0, 0, 0xffff, 0xc0a8, 0x0) | !v6_netmask(112))) == (
            s0 == 0 && s1 == 0 && s2 == 0 && s3 == 0 && s4 == 0 && s5 == 0xffff && ((s6 >> 8u16) as u8) == 192u8 && ((s6 & 0xffu16) as u8) == 168u8)) by (bit_vector);
            assert(((v6_value(0, 0, 0, 0, 0, 0xffff, 0xa9fe, 0x0) & v6_netmask(112)) <= v6_value(s0, s1, s2, s3, s4, s5, s6, s7) && v6_value(s0, s1, s2, s3, s4, s5, s6, s7) <= (v6_value(0, 0, 0, 0, 0, 0xffff, 0xa9fe, 0x0) | !v6_netmask(112))) == (
            s0 == 0 && s1 == 0 && s2 == 0 && s3 == 0 && s4 == 0 && s5 == 0xffff && ((s6 >> 8u16) as u8) == 169u8 && ((s6 & 0xffu16) as u8) == 254u8)) by (bit_vector);
            assert(((v6_value(0, 0, 0, 0, 0, 0xffff, 0xffff, 0xffff) & v6_netmask(128)) <= v6_value(s0, s1, s2, s3, s4, s5, s6, s7) && v6_value(s0, s1, s2, s3, s4, s5, s6, s7) <= (v6_value(0, 0, 0, 0, 0, 0xffff, 0xffff, 0xffff) | !v6_netmask(128))) == (
            s0 == 0 && s1 == 0 && s2 == 0 && s3 == 0 && s4 == 0 && s5 == 0xffff && ((s6 >> 8u16) as u8) == 255u8 && ((s6 & 0xffu16) as u8) == 255u8 && ((s7 >> 8u16) as u8) == 255u8 && ((s7 & 0xffu16) as u8) == 255u8)) by (bit_vector);
            assert(((v6_value(0, 0, 0, 0, 0, 0xffff, 0x0, 0x0) & v6_netmask(128)) <= v6_value(s0, s1, s2, s3, s4, s5, s6, s7) && v6_value(s0, s1, s2, s3, s4, s5, s6, s7) <= (v6_value(0, 0, 0, 0, 0, 0xffff, 0x0, 0x0) | !v6_netmask(128))) == (
            s0 == 0 && s1 == 0 && s2 == 0 && s3 == 0 && s4 == 0 && s5 == 0xffff && ((s6 >> 8u16) as u8) == 0u8 && ((s6 & 0xffu16) as u8) == 0u8 && ((s7 >> 8u16) as u8) == 0u8 && ((s7 & 0xffu16) as u8) == 0u8)) by (bit_vector);
            assert(((v6_value(0, 0, 0, 0, 0, 0xffff, 0x6440, 0x0) & v6_netmask(106)) <= v6_value(s0, s1, s2, s3, s4, s5, s6, s7) && v6_value(s0, s1, s2, s3, s4, s5, s6, s7) <= (v6_value(0, 0, 0, 0, 0, 0xffff, 0x6440, 0x0) | !v6_netmask(106))) == (
            s0 == 0 && s1 == 0 && s2 == 0 && s3 == 0 && s4 == 0 && s5 == 0xffff && ((s6 >> 8u16) as u8) == 100u8 && 64u8 <= ((s6 & 0xffu16) as u8) && ((s6 & 0xffu16) as u8) <= 127u8)) by (bit_vector);
            assert(((v6_value(0, 0, 0, 0, 0, 0xffff, 0xc000, 0x0) & v6_netmask(120)) <= v6_value(s0, s1, s2, s3, s4, s5, s6, s7) && v6_value(s0, s1, s2, s3, s4, s5, s6, s7) <= (v6_value(0, 0, 0, 0, 0, 0xffff, 0xc000, 0x0) | !v6_netmask(120))) == (
            s0 == 0 && s1 == 0 && s2 == 0 && s3 == 0 && s4 == 0 && s5 == 0xffff && ((s6 >> 8u16) as u8) == 192u8 && ((s6 & 0xffu16) as u8) == 0u8 && ((s7 >> 8u16) as u8) == 0u8)) by (bit_vector);
            assert((s@ =~= seq![0u16, 0, 0, 0, 0, 0, 0, 1]) == (s0 == 0 && s1 == 0 && s2 == 0 && s3
                == 0 && s4 == 0 && s5 == 0 && s6 == 0 && s7 == 1));
            assert((s@ =~= seq![0u16, 0, 0, 0, 0, 0, 0, 0]) == (s0 == 0 && s1 == 0 && s2 == 0 && s3
                == 0 && s4 == 0 && s5 == 0 && s6 == 0 && s7 == 0));
        },
    }
}

} // verus!
