//! Local network scanning for ADB over TCP: which local interfaces are
//! scanned, which hosts and ports are probed, how an ADB reply is
//! recognised, and how the found endpoints are ordered.
use crate::error::{is_error, ApiError};
use crate::text;
use vstd::prelude::*;

verus! {

/// The port probed when none is given.
pub const DEFAULT_ADB_PORT: u16 = 5555;

/// The most ports probed per host.
pub const MAX_PORTS: usize = 16;

/// The most subnets scanned when none is requested.
pub const MAX_AUTO_SUBNETS: usize = 4;

/// An IPv4 address of a local interface (the address as a big-endian
/// number, as `u32::from(Ipv4Addr)` gives it).
#[derive(Debug, Clone)]
pub struct InterfaceIpv4 {
    pub name: String,
    pub ip: u32,
    pub prefix_len: u8,
}

/// A /24 subnet chosen for scanning, with the local addresses in it and the
/// interface that ranks best for it.
#[derive(Debug, Clone)]
pub struct ScanSubnet {
    pub network: u32,
    pub local_ips: Vec<u32>,
    pub interface_name: String,
    /// 0 when the interface carries the default route and looks physical, else 1.
    pub route_rank: u8,
    /// The interface's `physical_interface_priority`.
    pub physical_rank: u8,
}

// ---------------------------------------------------------------------------
// Addresses and interface names
// ---------------------------------------------------------------------------

pub open spec fn octet0(ip: u32) -> int {
    (ip / 0x100_0000) as int
}

pub open spec fn octet1(ip: u32) -> int {
((ip / 0x1_0000) % 256) as int
}

/// An RFC 1918 private address: 10/8, 172.16/12 or 192.168/16.
pub open spec fn rfc1918(ip: u32) -> bool {
    ||| octet0(ip) == 10
    ||| (octet0(ip) == 172 && 16 <= octet1(ip) <= 31)
    ||| (octet0(ip) == 192 && octet1(ip) == 168)
}

pub fn is_rfc1918(ip: u32) -> (r: bool)
    ensures
        r == rfc1918(ip),
{
    let a = ip / 0x100_0000;
    let b = (ip / 0x1_0000) % 256;
    a == 10 || (a == 172 && 16 <= b && b <= 31) || (a == 192 && b == 168)
}

/// The /24 network of an address.
pub open spec fn net_of(ip: u32) -> u32 {
    (ip - ip % 256) as u32
}

/// How strongly an interface name suggests a physical link: 0 for Wi-Fi
/// (and `en0`), 1 for Ethernet, 2 otherwise; compared in ASCII lowercase.
pub open spec fn phys_prio(name: Seq<char>) -> u8 {
    let n = text::lower(name);
    if n == "en0"@ || text::starts_with(n, "wl"@) || text::contains(n, "wi-fi"@) || text::contains(
        n,
        "wifi"@,
    ) || text::contains(n, "wireless"@) || n == "wlan"@ || text::contains(n, "无线"@) {
        0
    } else if text::starts_with(n, "en"@) || text::starts_with(n, "eth"@) || text::contains(
        n,
        "ethernet"@,
    ) || text::contains(n, "local area connection"@) || text::contains(n, "以太网"@)
        || text::contains(n, "本地连接"@) {
        1
    } else {
        2
    }
}

fn lowered(name: &str) -> (r: Vec<char>)
    ensures
        r@ == text::lower(name@),
{
    let cs = text::chars_of(name);
    text::lower_exec(&cs)
}

pub fn physical_interface_priority(name: &str) -> (r: u8)
    ensures
        r == phys_prio(name@),
{
    let n = lowered(name);
    if text::eq_str(&n, "en0") || text::starts_with_str(&n, "wl") || text::contains_str(&n, "wi-fi")
        || text::contains_str(&n, "wifi") || text::contains_str(&n, "wireless") || text::eq_str(
        &n,
        "wlan",
    ) || text::contains_str(&n, "无线") {
        return 0;
    }
    if text::starts_with_str(&n, "en") || text::starts_with_str(&n, "eth") || text::contains_str(
        &n,
        "ethernet",
    ) || text::contains_str(&n, "local area connection") || text::contains_str(&n, "以太网")
        || text::contains_str(&n, "本地连接") {
        return 1;
    }
    2
}

/// Names of loopback, tunnel, VPN, container, VM and bridge interfaces: the
/// lowercase name is `lo` or `lo0`, starts with a known prefix, or holds a
/// known word.
pub open spec fn virtual_name(name: Seq<char>) -> bool {
    let n = text::lower(name);
    ||| n == "lo"@
    ||| n == "lo0"@
    ||| text::starts_with(n, "utun"@) || text::starts_with(n, "tun"@) || text::starts_with(n, "tap"@)
        || text::starts_with(n, "ppp"@) || text::starts_with(n, "ipsec"@) || text::starts_with(n, "wg"@)
        || text::starts_with(n, "docker"@) || text::starts_with(n, "veth"@) || text::starts_with(
        n,
        "virbr"@,
    ) || text::starts_with(n, "vmnet"@) || text::starts_with(n, "vbox"@) || text::starts_with(
        n,
        "br-"@,
    ) || text::starts_with(n, "bridge"@) || text::starts_with(n, "podman"@) || text::starts_with(
        n,
        "cni"@,
    ) || text::starts_with(n, "flannel"@) || text::starts_with(n, "awdl"@) || text::starts_with(
        n,
        "llw"@,
    ) || text::starts_with(n, "anpi"@) || text::starts_with(n, "gif"@) || text::starts_with(n, "stf"@)
        || text::starts_with(n, "tailscale"@) || text::starts_with(n, "zerotier"@) || text::starts_with(
        n,
        "zt"@,
    ) || text::starts_with(n, "ham"@) || text::starts_with(n, "dummy"@) || text::starts_with(n, "ifb"@)
    ||| text::contains(n, "loopback"@) || text::contains(n, "virtual"@) || text::contains(n, "hyper-v"@)
        || text::contains(n, "vethernet"@) || text::contains(n, "vmware"@) || text::contains(
        n,
        "virtualbox"@,
    ) || text::contains(n, "wsl"@) || text::contains(n, "vpn"@) || text::contains(n, "wireguard"@)
        || text::contains(n, "tunnel"@) || text::contains(n, "tap-windows"@) || text::contains(
        n,
        "tailscale"@,
    ) || text::contains(n, "zerotier"@) || text::contains(n, "bluetooth"@)
}

pub fn is_virtual_interface(name: &str) -> (r: bool)
    ensures
        r == virtual_name(name@),
{
    let n = lowered(name);
    let exact = text::eq_str(&n, "lo") || text::eq_str(&n, "lo0");
    let prefixed = text::starts_with_str(&n, "utun") || text::starts_with_str(&n, "tun")
        || text::starts_with_str(&n, "tap") || text::starts_with_str(&n, "ppp")
        || text::starts_with_str(&n, "ipsec") || text::starts_with_str(&n, "wg")
        || text::starts_with_str(&n, "docker") || text::starts_with_str(&n, "veth")
        || text::starts_with_str(&n, "virbr") || text::starts_with_str(&n, "vmnet")
        || text::starts_with_str(&n, "vbox") || text::starts_with_str(&n, "br-")
        || text::starts_with_str(&n, "bridge") || text::starts_with_str(&n, "podman")
        || text::starts_with_str(&n, "cni") || text::starts_with_str(&n, "flannel")
        || text::starts_with_str(&n, "awdl") || text::starts_with_str(&n, "llw")
        || text::starts_with_str(&n, "anpi") || text::starts_with_str(&n, "gif")
        || text::starts_with_str(&n, "stf") || text::starts_with_str(&n, "tailscale")
        || text::starts_with_str(&n, "zerotier") || text::starts_with_str(&n, "zt")
        || text::starts_with_str(&n, "ham") || text::starts_with_str(&n, "dummy")
        || text::starts_with_str(&n, "ifb");
    let worded = text::contains_str(&n, "loopback") || text::contains_str(&n, "virtual")
        || text::contains_str(&n, "hyper-v") || text::contains_str(&n, "vethernet")
        || text::contains_str(&n, "vmware") || text::contains_str(&n, "virtualbox")
        || text::contains_str(&n, "wsl") || text::contains_str(&n, "vpn") || text::contains_str(
        &n,
        "wireguard",
    ) || text::contains_str(&n, "tunnel") || text::contains_str(&n, "tap-windows")
        || text::contains_str(&n, "tailscale") || text::contains_str(&n, "zerotier")
        || text::contains_str(&n, "bluetooth");
    exact || prefixed || worded
}

// ---------------------------------------------------------------------------
// Choosing the subnets to scan
// ---------------------------------------------------------------------------

/// An interface whose /24 may be scanned: a private address, a prefix of 1
/// to 30 bits (no point-to-point links), and no virtual interface name.
pub open spec fn eligible(i: InterfaceIpv4) -> bool {
    rfc1918(i.ip) && 1 <= i.prefix_len <= 30 && !virtual_name(i.name@)
}

/// The rank of an interface, lower first: a physical-looking interface that
/// carries the default route comes first, then by `phys_prio`.
pub open spec fn rank_of(i: InterfaceIpv4, hint: Option<u32>) -> (u8, u8) {
    let p = phys_prio(i.name@);
    (
        if p < 2 && hint == Some(i.ip) {
            0u8
        } else {
            1u8
        },
        p,
    )
}

pub open spec fn rank_lt(a: (u8, u8), b: (u8, u8)) -> bool {
    a.0 < b.0 || (a.0 == b.0 && a.1 < b.1)
}

/// The best rank among the eligible interfaces of a /24, and the name of
/// the first interface (in the given order) that has it.
pub open spec fn best(s: Seq<InterfaceIpv4>, net: u32, hint: Option<u32>) -> Option<((u8, u8), Seq<char>)>
    decreases s.len(),
{
    if s.len() == 0 {
        None
    } else {
        let b = best(s.drop_last(), net, hint);
        let x = s.last();
        if eligible(x) && net_of(x.ip) == net {
            let p = rank_of(x, hint);
            match b {
                None => Some((p, x.name@)),
                Some(bb) => if rank_lt(p, bb.0) {
                    Some((p, x.name@))
                } else {
                    b
                },
            }
        } else {
            b
        }
    }
}

/// `ip` is the address of an eligible interface in the /24 `net`.
pub open spec fn member(s: Seq<InterfaceIpv4>, net: u32, ip: u32) -> bool {
    exists|k: int| 0 <= k < s.len() && eligible(#[trigger] s[k]) && net_of(s[k].ip) == net && s[k].ip == ip
}

pub open spec fn increasing(v: Seq<u32>) -> bool {
    forall|i: int, j: int| 0 <= i < j < v.len() ==> v[i] < v[j]
}

/// A subnet as chosen from the interfaces `s`: its best rank and interface,
/// and all local addresses in it, in increasing order.
pub open spec fn subnet_of(s: Seq<InterfaceIpv4>, hint: Option<u32>, sub: ScanSubnet) -> bool {
    &&& best(s, sub.network, hint) == Some(((sub.route_rank, sub.physical_rank), sub.interface_name@))
    &&& increasing(sub.local_ips@)
    &&& forall|ip: u32| sub.local_ips@.contains(ip) <==> member(s, sub.network, ip)
}

/// Subnets are ordered by rank, then by network address.
pub open spec fn before(a: ScanSubnet, b: ScanSubnet) -> bool {
    rank_lt((a.route_rank, a.physical_rank), (b.route_rank, b.physical_rank)) || ((a.route_rank, a.physical_rank)
        == (b.route_rank, b.physical_rank) && a.network < b.network)
}

pub open spec fn ordered(v: Seq<ScanSubnet>) -> bool {
    forall|i: int, j: int| 0 <= i < j < v.len() ==> !before(#[trigger] v[j], #[trigger] v[i])
}

pub open spec fn distinct_networks(v: Seq<ScanSubnet>) -> bool {
    forall|i: int, j: int|
        0 <= i < v.len() && 0 <= j < v.len() && i != j ==> (#[trigger] v[i]).network != (#[trigger] v[j]).network
}

pub open spec fn has_net(v: Seq<ScanSubnet>, net: u32) -> bool {
    exists|k: int| 0 <= k < v.len() && (#[trigger] v[k]).network == net
}

pub open spec fn all_subnets_of(v: Seq<ScanSubnet>, s: Seq<InterfaceIpv4>, hint: Option<u32>) -> bool {
    forall|k: int| 0 <= k < v.len() ==> subnet_of(s, hint, #[trigger] v[k])
}

proof fn lemma_member_push(s: Seq<InterfaceIpv4>, x: InterfaceIpv4, net: u32, ip: u32)
    ensures
        member(s.push(x), net, ip) <==> (member(s, net, ip) || (eligible(x) && net_of(x.ip) == net
            && x.ip == ip)),
{
    let t = s.push(x);
    if member(t, net, ip) {
        let k = choose|k: int| 0 <= k < t.len() && eligible(#[trigger] t[k]) && net_of(t[k].ip) == net && t[k].ip == ip;
        if k < s.len() {
            assert(s[k] == t[k]);
        }
    }
    if member(s, net, ip) {
        let k = choose|k: int| 0 <= k < s.len() && eligible(#[trigger] s[k]) && net_of(s[k].ip) == net && s[k].ip == ip;
        assert(t[k] == s[k]);
    }
    if eligible(x) && net_of(x.ip) == net && x.ip == ip {
        assert(t[s.len() as int] == x);
    }
}

proof fn lemma_member_best(s: Seq<InterfaceIpv4>, net: u32, ip: u32, hint: Option<u32>)
    requires
        member(s, net, ip),
    ensures
        best(s, net, hint) is Some,
    decreases s.len(),
{
    let k = choose|k: int| 0 <= k < s.len() && eligible(#[trigger] s[k]) && net_of(s[k].ip) == net && s[k].ip == ip;
    if k < s.len() - 1 {
        assert(s.drop_last()[k] == s[k]);
        lemma_member_best(s.drop_last(), net, ip, hint);
    }
}

proof fn lemma_best_some(s: Seq<InterfaceIpv4>, net: u32, hint: Option<u32>)
    requires
        best(s, net, hint) is Some,
    ensures
        exists|ip: u32| member(s, net, ip),
    decreases s.len(),
{
    let x = s.last();
    if eligible(x) && net_of(x.ip) == net {
        assert(s[s.len() - 1] == x);
        assert(member(s, net, x.ip));
    } else {
        lemma_best_some(s.drop_last(), net, hint);
        let ip = choose|ip: u32| member(s.drop_last(), net, ip);
        lemma_member_push(s.drop_last(), x, net, ip);
        assert(s.drop_last().push(x) =~= s);
    }
}

/// A subnet other than the interface's own keeps its description when the
/// interface is added.
proof fn lemma_other_unchanged(s: Seq<InterfaceIpv4>, x: InterfaceIpv4, hint: Option<u32>, sub: ScanSubnet)
    requires
        subnet_of(s, hint, sub),
        !(eligible(x) && net_of(x.ip) == sub.network),
    ensures
        subnet_of(s.push(x), hint, sub),
{
    let t = s.push(x);
    assert(t.drop_last() =~= s);
    assert forall|ip: u32| sub.local_ips@.contains(ip) <==> member(t, sub.network, ip) by {
        lemma_member_push(s, x, sub.network, ip);
    }
}

/// Inserts an address into an increasing list, once.
fn insert_ip(v: &mut Vec<u32>, ip: u32)
    requires
        increasing(old(v)@),
    ensures
        increasing(final(v)@),
        forall|x: u32| final(v)@.contains(x) <==> (old(v)@.contains(x) || x == ip),
{
    let ghost o = v@;
    let mut p: usize = 0;
    while p < v.len() && v[p] < ip
        invariant
            p <= v@.len(),
            v@ == o,
            increasing(o),
            forall|k: int| 0 <= k < p ==> #[trigger] o[k] < ip,
        decreases v@.len() - p,
    {
        p = p + 1;
    }
    if p < v.len() && v[p] == ip {
        assert(o[p as int] == ip);
        assert(o.contains(ip));
        return;
    }
    v.insert(p, ip);
    assert(o == old(v)@);
    assert(v@ == o.insert(p as int, ip));
    assert forall|x: u32| v@.contains(x) <==> (o.contains(x) || x == ip) by {
        if v@.contains(x) {
            let k = choose|k: int| 0 <= k < v@.len() && v@[k] == x;
            if k < p {
                assert(o[k] == x);
            } else if k > p {
                assert(o[k - 1] == x);
            }
        }
        if o.contains(x) {
            let k = choose|k: int| 0 <= k < o.len() && o[k] == x;
            if k < p {
                assert(v@[k] == x);
            } else {
                assert(v@[k + 1] == x);
            }
        }
        if x == ip {
            assert(v@[p as int] == x);
        }
    }
    assert(forall|x: u32| v@.contains(x) <==> (old(v)@.contains(x) || x == ip));
}

/// Inserts a subnet at its place in an ordered list.
fn insert_subnet(v: &mut Vec<ScanSubnet>, sub: ScanSubnet) -> (p: usize)
    requires
        ordered(old(v)@),
    ensures
        p <= old(v)@.len(),
        final(v)@ == old(v)@.insert(p as int, sub),
        ordered(final(v)@),
{
    let ghost o = v@;
    let mut p: usize = 0;
    while p < v.len() && !(sub.route_rank < v[p].route_rank || (sub.route_rank == v[p].route_rank
        && sub.physical_rank < v[p].physical_rank) || (sub.route_rank == v[p].route_rank
        && sub.physical_rank == v[p].physical_rank && sub.network < v[p].network))
        invariant
            p <= v@.len(),
            v@ == o,
            ordered(o),
            forall|k: int| 0 <= k < p ==> !before(sub, #[trigger] o[k]),
        decreases v@.len() - p,
    {
        p = p + 1;
    }
    v.insert(p, sub);
    assert(v@ == o.insert(p as int, sub));
    assert forall|i: int, j: int| 0 <= i < j < v@.len() implies !before(#[trigger] v@[j], #[trigger] v@[i]) by {
        if j == p {
            assert(v@[i] == o[i]);
        } else if i == p {
            assert(v@[j] == o[j - 1]);
            assert(before(sub, o[p as int]));
        } else if j < p {
            assert(v@[i] == o[i] && v@[j] == o[j]);
        } else if i < p {
            assert(v@[i] == o[i] && v@[j] == o[j - 1]);
        } else {
            assert(v@[i] == o[i - 1] && v@[j] == o[j - 1]);
        }
    }
    p
}

proof fn lemma_rest_unchanged(t: Seq<InterfaceIpv4>, x: InterfaceIpv4, hint: Option<u32>, rest: Seq<ScanSubnet>)
    requires
        all_subnets_of(rest, t, hint),
        forall|m: int| 0 <= m < rest.len() ==> !(eligible(x) && net_of(x.ip) == (#[trigger] rest[m]).network),
    ensures
        all_subnets_of(rest, t.push(x), hint),
{
    assert forall|m: int| 0 <= m < rest.len() implies subnet_of(t.push(x), hint, #[trigger] rest[m]) by {
        lemma_other_unchanged(t, x, hint, rest[m]);
    }
}

proof fn lemma_after_remove(v: Seq<ScanSubnet>, k: int, s: Seq<InterfaceIpv4>, hint: Option<u32>)
    requires
        0 <= k < v.len(),
        distinct_networks(v),
        ordered(v),
        all_subnets_of(v, s, hint),
    ensures
        distinct_networks(v.remove(k)),
        ordered(v.remove(k)),
        all_subnets_of(v.remove(k), s, hint),
        forall|m: int| 0 <= m < v.remove(k).len() ==> (#[trigger] v.remove(k)[m]).network != v[k].network,
        forall|n: u32|
            #![trigger has_net(v.remove(k), n)]
            #![trigger has_net(v, n)]
            n != v[k].network ==> (has_net(v.remove(k), n) <==> has_net(v, n)),
{
    let r = v.remove(k);
    assert forall|m: int| 0 <= m < r.len() implies r[m] == v[if m < k { m } else { m + 1 }] by {}
    assert forall|a: int, b: int| 0 <= a < r.len() && 0 <= b < r.len() && a != b implies (#[trigger] r[a]).network
        != (#[trigger] r[b]).network by {
        assert(r[a] == v[if a < k { a } else { a + 1 }]);
        assert(r[b] == v[if b < k { b } else { b + 1 }]);
    }
    assert forall|a: int, b: int| 0 <= a < b < r.len() implies !before(#[trigger] r[b], #[trigger] r[a]) by {
        assert(r[a] == v[if a < k { a } else { a + 1 }]);
        assert(r[b] == v[if b < k { b } else { b + 1 }]);
    }
    assert forall|m: int| 0 <= m < r.len() implies subnet_of(s, hint, #[trigger] r[m]) by {
        assert(r[m] == v[if m < k { m } else { m + 1 }]);
    }
    assert forall|m: int| 0 <= m < r.len() implies (#[trigger] r[m]).network != v[k].network by {
        assert(r[m] == v[if m < k { m } else { m + 1 }]);
    }
    assert forall|n: u32| n != v[k].network implies (has_net(r, n) <==> has_net(v, n)) by {
        if has_net(r, n) {
            let w = choose|w: int| 0 <= w < r.len() && (#[trigger] r[w]).network == n;
            assert(r[w] == v[if w < k { w } else { w + 1 }]);
        }
        if has_net(v, n) {
            let w = choose|w: int| 0 <= w < v.len() && (#[trigger] v[w]).network == n;
            assert(w != k);
            let w2 = if w < k { w } else { w - 1 };
            assert(r[w2] == v[w]);
        }
    }
}

proof fn lemma_after_insert(v: Seq<ScanSubnet>, p: int, sub: ScanSubnet, s: Seq<InterfaceIpv4>, hint: Option<u32>)
    requires
        0 <= p <= v.len(),
        distinct_networks(v),
        all_subnets_of(v, s, hint),
        subnet_of(s, hint, sub),
        forall|m: int| 0 <= m < v.len() ==> (#[trigger] v[m]).network != sub.network,
    ensures
        distinct_networks(v.insert(p, sub)),
        all_subnets_of(v.insert(p, sub), s, hint),
        forall|n: u32|
            #![trigger has_net(v.insert(p, sub), n)]
            #![trigger has_net(v, n)]
            has_net(v.insert(p, sub), n) <==> (has_net(v, n) || n == sub.network),
{
    let r = v.insert(p, sub);
    assert forall|m: int| 0 <= m < r.len() && m != p implies r[m] == v[if m < p { m } else { m - 1 }] by {}
    assert(r[p] == sub);
    assert forall|a: int, b: int| 0 <= a < r.len() && 0 <= b < r.len() && a != b implies (#[trigger] r[a]).network
        != (#[trigger] r[b]).network by {
        if a != p {
            assert(r[a] == v[if a < p { a } else { a - 1 }]);
        }
        if b != p {
            assert(r[b] == v[if b < p { b } else { b - 1 }]);
        }
    }
    assert forall|m: int| 0 <= m < r.len() implies subnet_of(s, hint, #[trigger] r[m]) by {
        if m != p {
            assert(r[m] == v[if m < p { m } else { m - 1 }]);
        }
    }
    assert forall|n: u32| has_net(r, n) <==> (has_net(v, n) || n == sub.network) by {
        if has_net(r, n) {
            let w = choose|w: int| 0 <= w < r.len() && (#[trigger] r[w]).network == n;
            if w != p {
                assert(r[w] == v[if w < p { w } else { w - 1 }]);
            }
        }
        if has_net(v, n) {
            let w = choose|w: int| 0 <= w < v.len() && (#[trigger] v[w]).network == n;
            let w2 = if w < p { w } else { w + 1 };
            assert(r[w2] == v[w]);
        }
        if n == sub.network {
            assert(r[p].network == n);
        }
    }
}

/// The /24 subnets to scan, chosen from the local IPv4 interfaces: one per
/// network that holds an eligible interface, ranked by the best interface in
/// it (the one carrying `route_hint` first), then by network address.
#[verifier::rlimit(60)]
pub fn select_private_ipv4_subnets(interfaces: &[InterfaceIpv4], route_hint: Option<u32>) -> (r: Vec<
    ScanSubnet,
>)
    ensures
        all_subnets_of(r@, interfaces@, route_hint),
        distinct_networks(r@),
        ordered(r@),
        forall|net: u32| (#[trigger] best(interfaces@, net, route_hint)) is Some ==> has_net(r@, net),
{
    let mut acc: Vec<ScanSubnet> = Vec::new();
    let mut i: usize = 0;
    while i < interfaces.len()
        invariant
            i <= interfaces@.len(),
            all_subnets_of(acc@, interfaces@.take(i as int), route_hint),
            distinct_networks(acc@),
            ordered(acc@),
            forall|net: u32| (#[trigger] best(interfaces@.take(i as int), net, route_hint)) is Some ==> has_net(acc@, net),
        decreases interfaces@.len() - i,
    {
        let x = &interfaces[i];
        let ghost t = interfaces@.take(i as int);
        let ghost t1 = interfaces@.take(i + 1);
        assert(t1 =~= t.push(*x));
        assert(t1.drop_last() =~= t);
        let eligible_x = is_rfc1918(x.ip) && 1 <= x.prefix_len && x.prefix_len <= 30
            && !is_virtual_interface(x.name.as_str());
        if !eligible_x {
            proof {
                assert forall|k: int| 0 <= k < acc@.len() implies subnet_of(t1, route_hint, #[trigger] acc@[k]) by {
                    lemma_other_unchanged(t, *x, route_hint, acc@[k]);
                }
                assert forall|net: u32| best(t1, net, route_hint) is Some implies has_net(acc@, net) by {
                    assert(best(t1, net, route_hint) == best(t, net, route_hint));
                }
            }
        } else {
            let net: u32 = x.ip - x.ip % 256;
            let phys = physical_interface_priority(x.name.as_str());
            let route: u8 = if phys < 2 && route_hint == Some(x.ip) {
                0
            } else {
                1
            };
            assert((route, phys) == rank_of(*x, route_hint));
            let mut k: usize = 0;
            while k < acc.len() && acc[k].network != net
                invariant
                    k <= acc@.len(),
                    forall|m: int| 0 <= m < k ==> (#[trigger] acc@[m]).network != net,
                decreases acc@.len() - k,
            {
                k = k + 1;
            }
            let ghost old_acc = acc@;
            if k < acc.len() {
                let old_sub = acc.remove(k);
                assert(old_sub == old_acc[k as int]);
                assert(acc@ == old_acc.remove(k as int));
                let ghost rest = acc@;
                let mut ips = old_sub.local_ips;
                insert_ip(&mut ips, x.ip);
                let better = route < old_sub.route_rank || (route == old_sub.route_rank && phys
                    < old_sub.physical_rank);
                let new_sub = if better {
                    ScanSubnet {
                        network: net,
                        local_ips: ips,
                        interface_name: text::copy_string(&x.name),
                        route_rank: route,
                        physical_rank: phys,
                    }
                } else {
                    ScanSubnet {
                        network: net,
                        local_ips: ips,
                        interface_name: old_sub.interface_name,
                        route_rank: old_sub.route_rank,
                        physical_rank: old_sub.physical_rank,
                    }
                };
                proof {
                    assert forall|ip: u32| new_sub.local_ips@.contains(ip) <==> member(t1, net, ip) by {
                        lemma_member_push(t, *x, net, ip);
                    }
                    assert(subnet_of(t1, route_hint, new_sub));
                    lemma_after_remove(old_acc, k as int, t, route_hint);
                    lemma_rest_unchanged(t, *x, route_hint, rest);
                }
                let p = insert_subnet(&mut acc, new_sub);
                proof {
                    lemma_after_insert(rest, p as int, new_sub, t1, route_hint);
                    assert(acc@ == rest.insert(p as int, new_sub));
                    assert forall|n: u32| #[trigger] best(t1, n, route_hint) is Some implies has_net(acc@, n) by {
                        if n != net {
                            assert(best(t1, n, route_hint) == best(t, n, route_hint));
                            assert(has_net(old_acc, n));
                            assert(has_net(rest, n));
                        }
                        assert(has_net(rest.insert(p as int, new_sub), n));
                    }
                }
            } else {
                let mut ips: Vec<u32> = Vec::new();
                ips.push(x.ip);
                let new_sub = ScanSubnet {
                    network: net,
                    local_ips: ips,
                    interface_name: text::copy_string(&x.name),
                    route_rank: route,
                    physical_rank: phys,
                };
                proof {
                    if best(t, net, route_hint) is Some {
                        let w = choose|w: int| 0 <= w < acc@.len() && (#[trigger] acc@[w]).network == net;
                        assert(false);
                    }
                    assert forall|ip: u32| new_sub.local_ips@.contains(ip) <==> member(t1, net, ip) by {
                        lemma_member_push(t, *x, net, ip);
                        if member(t, net, ip) {
                            lemma_member_best(t, net, ip, route_hint);
                        }
                        if ip == x.ip {
                            assert(new_sub.local_ips@[0] == ip);
                        }
                    }
                    lemma_rest_unchanged(t, *x, route_hint, old_acc);
                }
                let p = insert_subnet(&mut acc, new_sub);
                proof {
                    lemma_after_insert(old_acc, p as int, new_sub, t1, route_hint);
                    assert(acc@ == old_acc.insert(p as int, new_sub));
                    assert forall|n: u32| #[trigger] best(t1, n, route_hint) is Some implies has_net(acc@, n) by {
                        if n != net {
                            assert(best(t1, n, route_hint) == best(t, n, route_hint));
                            assert(has_net(old_acc, n));
                        }
                        assert(has_net(old_acc.insert(p as int, new_sub), n));
                    }
                }
            }
        }
        i = i + 1;
    }
    assert(interfaces@.take(interfaces@.len() as int) =~= interfaces@);
    acc
}

// ---------------------------------------------------------------------------
// Ports
// ---------------------------------------------------------------------------

pub open spec fn increasing_ports(v: Seq<u16>) -> bool {
    forall|i: int, j: int| 0 <= i < j < v.len() ==> v[i] < v[j]
}

fn insert_port(v: &mut Vec<u16>, port: u16)
    requires
        increasing_ports(old(v)@),
    ensures
        increasing_ports(final(v)@),
        forall|x: u16| final(v)@.contains(x) <==> (old(v)@.contains(x) || x == port),
{
    let ghost o = v@;
    let mut p: usize = 0;
    while p < v.len() && v[p] < port
        invariant
            p <= v@.len(),
            v@ == o,
            increasing_ports(o),
            forall|k: int| 0 <= k < p ==> #[trigger] o[k] < port,
        decreases v@.len() - p,
    {
        p = p + 1;
    }
    if p < v.len() && v[p] == port {
        assert(o[p as int] == port);
        assert(o.contains(port));
        return;
    }
    v.insert(p, port);
    assert(o == old(v)@);
    assert(v@ == o.insert(p as int, port));
    assert forall|x: u16| v@.contains(x) <==> (o.contains(x) || x == port) by {
        if v@.contains(x) {
            let k = choose|k: int| 0 <= k < v@.len() && v@[k] == x;
            if k < p {
                assert(o[k] == x);
            } else if k > p {
                assert(o[k - 1] == x);
            }
        }
        if o.contains(x) {
            let k = choose|k: int| 0 <= k < o.len() && o[k] == x;
            if k < p {
                assert(v@[k] == x);
            } else {
                assert(v@[k + 1] == x);
            }
        }
        if x == port {
            assert(v@[p as int] == x);
        }
    }
    assert(forall|x: u16| v@.contains(x) <==> (old(v)@.contains(x) || x == port));
}

/// No port, port 0, or more than 16 distinct ports.
pub open spec fn bad_ports(p: Seq<u16>) -> bool {
    p.len() == 0 || p.contains(0u16) || p.to_set().len() > MAX_PORTS
}

/// The ports to probe: the given ones (5555 when none are given), each once,
/// in increasing order. Between 1 and 16 distinct ports, none of them 0.
pub fn normalize_scan_ports(ports: Option<Vec<u16>>) -> (r: Result<Vec<u16>, ApiError>)
    ensures
        ports is None ==> (r matches Ok(v) && v@ == seq![DEFAULT_ADB_PORT]),
        ports is Some && bad_ports(ports->0@) ==> (r matches Err(e) && is_error(
            e,
            "invalid_scan_ports"@,
            "Provide between 1 and 16 non-zero ports"@,
        )),
        ports is Some && !bad_ports(ports->0@) ==> (r matches Ok(v) && increasing_ports(v@)
            && v@.to_set() == ports->0@.to_set()),
{
    if ports.is_none() {
        let mut v: Vec<u16> = Vec::new();
        v.push(DEFAULT_ADB_PORT);
        assert(v@ =~= seq![DEFAULT_ADB_PORT]);
        return Ok(v);
    }
    let given = ports.unwrap();
    let mut out: Vec<u16> = Vec::new();
    let mut i: usize = 0;
    while i < given.len()
        invariant
            i <= given@.len(),
            increasing_ports(out@),
            forall|x: u16| out@.contains(x) <==> given@.take(i as int).contains(x),
        decreases given@.len() - i,
    {
        let ghost t0 = given@.take(i as int);
        let ghost t1 = given@.take(i + 1);
        assert(t1 =~= t0.push(given@[i as int]));
        insert_port(&mut out, given[i]);
        assert forall|x: u16| out@.contains(x) <==> t1.contains(x) by {
            if t1.contains(x) {
                let k = choose|k: int| 0 <= k < t1.len() && #[trigger] t1[k] == x;
                if k < i {
                    assert(t0[k] == x);
                }
            }
            if t0.contains(x) {
                let k = choose|k: int| 0 <= k < t0.len() && #[trigger] t0[k] == x;
                assert(t1[k] == x);
            }
            if x == given@[i as int] {
                assert(t1[i as int] == x);
            }
        }
        i = i + 1;
    }
    assert(given@.take(given@.len() as int) =~= given@);
    proof {
        assert(out@.to_set() =~= given@.to_set());
        assert(out@.no_duplicates()) by {
            assert forall|a: int, b: int| 0 <= a < out@.len() && 0 <= b < out@.len() && a != b implies out@[a] != out@[b] by {
                if a < b {
                } else {
                }
            }
        }
        out@.unique_seq_to_set();
        if out@.len() > 0 {
            assert forall|x: u16| out@.contains(x) implies out@[0] <= x by {
                let k = choose|k: int| 0 <= k < out@.len() && out@[k] == x;
                if k > 0 {
                }
            }
        }
    }
    proof {
        assert(out@.to_set().len() == out@.len());
        assert(out@.to_set() == given@.to_set());
        if given@.len() > 0 {
            assert(given@.contains(given@[0]));
            assert(out@.contains(given@[0]));
        }
        if given@.len() == 0 {
            assert(given@.to_set() =~= Set::<u16>::empty());
        }
        if given@.contains(0u16) {
            assert(out@.contains(0u16));
            let k = choose|k: int| 0 <= k < out@.len() && out@[k] == 0u16;
            if k > 0 {
                assert(out@[0] < out@[k]);
            }
            assert(out@[0] == 0);
        }
        if out@.len() > 0 && out@[0] == 0 {
            assert(out@.contains(0u16));
            assert(given@.contains(0u16));
        }
    }
    if out.len() == 0 || out.len() > MAX_PORTS || out[0] == 0 {
        return Err(ApiError::new("invalid_scan_ports", "Provide between 1 and 16 non-zero ports"));
    }
    Ok(out)
}

// ---------------------------------------------------------------------------
// Which subnets, hosts and ports
// ---------------------------------------------------------------------------

/// The two subnets describe the same network, addresses and interface.
pub open spec fn same_subnet(a: ScanSubnet, b: ScanSubnet) -> bool {
    &&& a.network == b.network
    &&& a.local_ips@ == b.local_ips@
    &&& a.interface_name@ == b.interface_name@
    &&& a.route_rank == b.route_rank
    &&& a.physical_rank == b.physical_rank
}

fn copy_subnet(s: &ScanSubnet) -> (r: ScanSubnet)
    ensures
        same_subnet(r, *s),
{
    let mut ips: Vec<u32> = Vec::new();
    let mut i: usize = 0;
    while i < s.local_ips.len()
        invariant
            i <= s.local_ips@.len(),
            ips@ == s.local_ips@.take(i as int),
        decreases s.local_ips@.len() - i,
    {
        ips.push(s.local_ips[i]);
        assert(s.local_ips@.take(i + 1) =~= s.local_ips@.take(i as int).push(s.local_ips@[i as int]));
        i = i + 1;
    }
    assert(s.local_ips@.take(s.local_ips@.len() as int) =~= s.local_ips@);
    ScanSubnet {
        network: s.network,
        local_ips: ips,
        interface_name: text::copy_string(&s.interface_name),
        route_rank: s.route_rank,
        physical_rank: s.physical_rank,
    }
}

/// The dotted text of an address given as a number.
pub open spec fn ip_text(ip: u32) -> Seq<char> {
    crate::ip::ipv4_display(
        (ip / 0x100_0000) as u8,
        ((ip / 0x1_0000) % 256) as u8,
        ((ip / 256) % 256) as u8,
        (ip % 256) as u8,
    )
}

pub fn ip_string(ip: u32) -> (r: String)
    ensures
        r@ == ip_text(ip),
{
    crate::ip::ipv4_string(
        (ip / 0x100_0000) as u8,
        ((ip / 0x1_0000) % 256) as u8,
        ((ip / 256) % 256) as u8,
        (ip % 256) as u8,
    )
}

pub open spec fn network_labels(v: Seq<ScanSubnet>) -> Seq<Seq<char>> {
    v.map_values(|s: ScanSubnet| ip_text(s.network) + "/24"@)
}

/// The subnets to scan: the detected subnet equal to the requested network,
/// or, with no request, the first four detected subnets.
pub fn choose_subnets(detected: &[ScanSubnet], requested: Option<u32>) -> (r: Result<Vec<ScanSubnet>, ApiError>)
    ensures
        match requested {
            None => (r matches Ok(v) && v@.len() == (if detected@.len() < MAX_AUTO_SUBNETS {
                detected@.len()
            } else {
                MAX_AUTO_SUBNETS as nat
            }) && forall|k: int| 0 <= k < v@.len() ==> same_subnet(#[trigger] v@[k], detected@[k])),
            Some(n) => if has_net(detected@, n) {
                (r matches Ok(v) && v@.len() > 0 && forall|k: int|
                    0 <= k < v@.len() ==> (#[trigger] v@[k]).network == n && exists|m: int|
                        0 <= m < detected@.len() && same_subnet(v@[k], detected@[m]))
            } else {
                (r matches Err(e) && is_error(
                    e,
                    "cidr_not_local"@,
                    "Requested subnet "@ + ip_text(n) + "/24 is not an active local subnet ("@
                        + text::join(network_labels(detected@), ", "@) + ")"@,
                ))
            },
        },
{
    match requested {
        None => {
            let mut out: Vec<ScanSubnet> = Vec::new();
            let mut i: usize = 0;
            while i < detected.len() && i < MAX_AUTO_SUBNETS
                invariant
                    i <= detected@.len(),
                    i <= MAX_AUTO_SUBNETS,
                    out@.len() == i,
                    forall|k: int| 0 <= k < i ==> same_subnet(#[trigger] out@[k], detected@[k]),
                decreases detected@.len() - i,
            {
                out.push(copy_subnet(&detected[i]));
                i = i + 1;
            }
            Ok(out)
        },
        Some(n) => {
            let mut out: Vec<ScanSubnet> = Vec::new();
            let mut i: usize = 0;
            while i < detected.len()
                invariant
                    i <= detected@.len(),
                    forall|k: int| 0 <= k < out@.len() ==> (#[trigger] out@[k]).network == n && exists|m: int|
                        0 <= m < detected@.len() && same_subnet(out@[k], detected@[m]),
                    (out@.len() == 0) == !has_net(detected@.take(i as int), n),
                decreases detected@.len() - i,
            {
                let ghost t0 = detected@.take(i as int);
                let ghost t1 = detected@.take(i + 1);
                if detected[i].network == n {
                    let c = copy_subnet(&detected[i]);
                    let ghost old_out = out@;
                    out.push(c);
                    assert(t1[i as int].network == n);
                    assert forall|k: int| 0 <= k < out@.len() implies (#[trigger] out@[k]).network == n && exists|m: int|
                        0 <= m < detected@.len() && same_subnet(out@[k], detected@[m]) by {
                        if k < old_out.len() {
                            assert(out@[k] == old_out[k]);
                        } else {
                            assert(same_subnet(out@[k], detected@[i as int]));
                        }
                    }
                } else {
                    assert(has_net(t1, n) == has_net(t0, n)) by {
                        if has_net(t1, n) {
                            let w = choose|w: int| 0 <= w < t1.len() && (#[trigger] t1[w]).network == n;
                            assert(t0[w] == t1[w]);
                        }
                        if has_net(t0, n) {
                            let w = choose|w: int| 0 <= w < t0.len() && (#[trigger] t0[w]).network == n;
                            assert(t1[w] == t0[w]);
                        }
                    }
                }
                i = i + 1;
            }
            assert(detected@.take(detected@.len() as int) =~= detected@);
            if out.len() > 0 {
                return Ok(out);
            }
            let mut labels: Vec<Vec<char>> = Vec::new();
            let mut k: usize = 0;
            while k < detected.len()
                invariant
                    k <= detected@.len(),
                    text::views(labels@) == network_labels(detected@.take(k as int)),
                decreases detected@.len() - k,
            {
                let mut l = text::chars_of(ip_string(detected[k].network).as_str());
                text::append_str(&mut l, "/24");
                labels.push(l);
                assert(network_labels(detected@.take(k + 1)) =~= network_labels(detected@.take(k as int)).push(
                    ip_text(detected@[k as int].network) + "/24"@,
                ));
                assert(text::views(labels@) =~= network_labels(detected@.take(k + 1)));
                k = k + 1;
            }
            assert(detected@.take(detected@.len() as int) =~= detected@);
            let sep = text::chars_of(", ");
            let joined = text::join_exec(&labels, &sep);
            let mut m = text::chars_of("Requested subnet ");
            text::append_str(&mut m, ip_string(n).as_str());
            text::append_str(&mut m, "/24 is not an active local subnet (");
            text::append(&mut m, &joined);
            text::append_str(&mut m, ")");
            Err(ApiError::with_message("cidr_not_local", text::string_of(&m)))
        },
    }
}

/// The probes of one subnet: each host 1 to 254 that is not a local
/// address, with each port, in that order.
pub open spec fn probes_upto(network: u32, local_ips: Seq<u32>, ports: Seq<u16>, h: nat) -> Seq<(u32, u16)>
    decreases h,
{
    if h == 0 {
        Seq::empty()
    } else {
        let ip = (network + h) as u32;
        probes_upto(network, local_ips, ports, (h - 1) as nat) + if local_ips.contains(ip) {
            Seq::empty()
        } else {
            ports.map_values(|p: u16| (ip, p))
        }
    }
}

pub fn scan_targets(subnet: &ScanSubnet, ports: &[u16]) -> (r: Vec<(u32, u16)>)
    requires
        subnet.network % 256 == 0,
    ensures
        r@ == probes_upto(subnet.network, subnet.local_ips@, ports@, 254),
{
    let mut out: Vec<(u32, u16)> = Vec::new();
    let mut h: u32 = 1;
    while h <= 254
        invariant
            1 <= h <= 255,
            subnet.network % 256 == 0,
            out@ == probes_upto(subnet.network, subnet.local_ips@, ports@, (h - 1) as nat),
        decreases 255 - h,
    {
        let ip = subnet.network + h;
        let mut local = false;
        let mut k: usize = 0;
        while k < subnet.local_ips.len() && !local
            invariant
                k <= subnet.local_ips@.len(),
                local ==> subnet.local_ips@.contains(ip),
                !local ==> forall|j: int| 0 <= j < k ==> subnet.local_ips@[j] != ip,
            decreases subnet.local_ips@.len() - k + (if local { 0int } else { 1int }),
        {
            if subnet.local_ips[k] == ip {
                local = true;
                assert(subnet.local_ips@[k as int] == ip);
            } else {
                k = k + 1;
            }
        }
        let ghost before = out@;
        if !local {
            let mut j: usize = 0;
            while j < ports.len()
                invariant
                    j <= ports@.len(),
                    out@ == before + ports@.take(j as int).map_values(|p: u16| (ip, p)),
                decreases ports@.len() - j,
            {
                out.push((ip, ports[j]));
                assert(ports@.take(j + 1).map_values(|p: u16| (ip, p)) =~= ports@.take(j as int).map_values(
                    |p: u16| (ip, p),
                ).push((ip, ports@[j as int])));
                j = j + 1;
            }
            assert(ports@.take(ports@.len() as int) =~= ports@);
        }
        assert(out@ =~= probes_upto(subnet.network, subnet.local_ips@, ports@, h as nat));
        h = h + 1;
    }
    out
}

/// Another subnet is scanned only when no subnet was requested and no ADB
/// device was found so far.
pub fn continue_scan(requested: bool, found_adb: bool) -> (r: bool)
    ensures
        r == (!requested && !found_adb),
{
    !requested && !found_adb
}

// ---------------------------------------------------------------------------
// The ADB handshake
// ---------------------------------------------------------------------------

pub const A_CNXN: u32 = 0x4e58_4e43;
pub const A_AUTH: u32 = 0x4854_5541;
pub const A_STLS: u32 = 0x534c_5453;

/// Little-endian bytes of a 32-bit value.
pub open spec fn le32(v: u32) -> Seq<u8> {
    seq![(v % 256) as u8, ((v / 256) % 256) as u8, ((v / 0x1_0000) % 256) as u8, (v / 0x100_0000) as u8]
}

/// The payload of the probe: `host::mobius` and a NUL byte.
pub open spec fn probe_payload() -> Seq<u8> {
    seq![104u8, 111, 115, 116, 58, 58, 109, 111, 98, 105, 117, 115, 0]
}

/// A CONNECT message: command, version 0x01000000, maximum payload 4096,
/// payload length 13, payload byte sum 1217, the command's complement, then
/// the payload.
pub open spec fn connect_packet() -> Seq<u8> {
    le32(A_CNXN) + le32(0x0100_0000) + le32(4096) + le32(13) + le32(1217) + le32(0xb1a7_b1bc)
        + probe_payload()
}

fn push_le32(v: &mut Vec<u8>, x: u32)
    ensures
        final(v)@ == old(v)@ + le32(x),
{
    v.push((x % 256) as u8);
    v.push(((x / 256) % 256) as u8);
    v.push(((x / 0x1_0000) % 256) as u8);
    v.push((x / 0x100_0000) as u8);
    assert(v@ =~= old(v)@ + le32(x));
}

/// The bytes sent to a candidate endpoint.
pub fn adb_connect_packet() -> (r: Vec<u8>)
    ensures
        r@ == connect_packet(),
{
    let mut v: Vec<u8> = Vec::new();
    push_le32(&mut v, A_CNXN);
    push_le32(&mut v, 0x0100_0000);
    push_le32(&mut v, 4096);
    push_le32(&mut v, 13);
    push_le32(&mut v, 1217);
    push_le32(&mut v, A_CNXN ^ 0xffff_ffff);
    let payload: [u8; 13] = [104, 111, 115, 116, 58, 58, 109, 111, 98, 105, 117, 115, 0];
    let mut i: usize = 0;
    let ghost start = v@;
    while i < 13
        invariant
            i <= 13,
            payload@ == probe_payload(),
            v@ == start + payload@.take(i as int),
        decreases 13 - i,
    {
        v.push(payload[i]);
        assert(payload@.take(i + 1) =~= payload@.take(i as int).push(payload@[i as int]));
        i = i + 1;
    }
    assert(payload@.take(13) =~= payload@);
    assert(A_CNXN ^ 0xffff_ffff == 0xb1a7_b1bcu32) by (bit_vector);
    assert(v@ =~= connect_packet());
    v
}

pub open spec fn le_value(b: Seq<u8>, at: int) -> u32 {
    (b[at] + b[at + 1] * 256 + b[at + 2] * 0x1_0000 + b[at + 3] * 0x100_0000) as u32
}

/// A reply from an ADB daemon: its first word is CONNECT, AUTH or STLS and
/// its last word is that command's complement.
pub open spec fn adb_reply(b: Seq<u8>) -> bool {
    let command = le_value(b, 0);
    let magic = le_value(b, 20);
    magic == command ^ 0xffff_ffff && (command == A_CNXN || command == A_AUTH || command == A_STLS)
}

pub fn adb_detected(response: &[u8]) -> (r: bool)
    requires
        response@.len() == 24,
    ensures
        r == adb_reply(response@),
{
    let command: u32 = response[0] as u32 + response[1] as u32 * 256 + response[2] as u32 * 0x1_0000
        + response[3] as u32 * 0x100_0000;
    let magic: u32 = response[20] as u32 + response[21] as u32 * 256 + response[22] as u32 * 0x1_0000
        + response[23] as u32 * 0x100_0000;
    magic == command ^ 0xffff_ffff && (command == A_CNXN || command == A_AUTH || command == A_STLS)
}

// ---------------------------------------------------------------------------
// Results
// ---------------------------------------------------------------------------

/// An endpoint that accepted a connection.
#[derive(Debug, Clone, Copy, PartialEq, Eq, Structural)]
pub struct FoundEndpoint {
    pub ip: u32,
    pub port: u16,
    pub latency_ms: u64,
    pub adb: bool,
}

pub open spec fn endpoint_before(a: FoundEndpoint, b: FoundEndpoint) -> bool {
    a.ip < b.ip || (a.ip == b.ip && a.port < b.port)
}

pub open spec fn endpoints_ordered(v: Seq<FoundEndpoint>) -> bool {
    forall|i: int, j: int| 0 <= i < j < v.len() ==> !endpoint_before(#[trigger] v[j], #[trigger] v[i])
}

/// Orders found endpoints by address, then by port.
pub fn order_endpoints(found: Vec<FoundEndpoint>) -> (r: Vec<FoundEndpoint>)
    ensures
        endpoints_ordered(r@),
        r@.to_multiset() =~= found@.to_multiset(),
{
    broadcast use vstd::seq_lib::group_to_multiset_ensures;

    let ghost all = found@;
    let mut rest = found;
    let mut out: Vec<FoundEndpoint> = Vec::new();
    while rest.len() > 0
        invariant
            endpoints_ordered(out@),
            out@.to_multiset().add(rest@.to_multiset()) =~= all.to_multiset(),
        decreases rest@.len(),
    {
        let ghost before = rest@;
        let item = match rest.pop() {
            Some(x) => x,
            None => {
                return out;
            },
        };
        assert(before =~= rest@.push(item));
        let mut p: usize = 0;
        while p < out.len() && !(item.ip < out[p].ip || (item.ip == out[p].ip && item.port < out[p].port))
            invariant
                p <= out@.len(),
                forall|k: int| 0 <= k < p ==> !endpoint_before(item, #[trigger] out@[k]),
            decreases out@.len() - p,
        {
            p = p + 1;
        }
        let ghost old_out = out@;
        out.insert(p, item);
        assert(out@ == old_out.insert(p as int, item));
        proof {
            vstd::seq_lib::to_multiset_build(rest@, item);
            vstd::seq_lib::to_multiset_insert(old_out, p as int, item);
            assert(out@.to_multiset().add(rest@.to_multiset()) =~= old_out.to_multiset().add(
                before.to_multiset(),
            ));
        }
        assert forall|i: int, j: int| 0 <= i < j < out@.len() implies !endpoint_before(
            #[trigger] out@[j],
            #[trigger] out@[i],
        ) by {
            if j == p {
                assert(out@[i] == old_out[i]);
            } else if i == p {
                assert(out@[j] == old_out[j - 1]);
            } else if j < p {
                assert(out@[i] == old_out[i] && out@[j] == old_out[j]);
            } else if i < p {
                assert(out@[i] == old_out[i] && out@[j] == old_out[j - 1]);
            } else {
                assert(out@[i] == old_out[i - 1] && out@[j] == old_out[j - 1]);
            }
        }
    }
    assert(rest@ =~= Seq::<FoundEndpoint>::empty());
    out
}

/// The reported record of a found endpoint: state `adb` for an ADB reply,
/// `open` otherwise.
pub fn endpoint_record(found: FoundEndpoint) -> (r: crate::models::ScanEndpoint)
    ensures
        r.address@ == ip_text(found.ip),
        r.port == found.port,
        r.latency_ms == found.latency_ms,
        r.state@ == (if found.adb {
            "adb"@
        } else {
            "open"@
        }),
{
    crate::models::ScanEndpoint {
        address: ip_string(found.ip),
        port: found.port,
        latency_ms: found.latency_ms,
        state: if found.adb {
            text::copy_str("adb")
        } else {
            text::copy_str("open")
        },
    }
}

} // verus!
