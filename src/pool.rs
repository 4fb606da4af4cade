//! The set of network endpoints a sandboxed instance may bind or connect to.
use vstd::prelude::*;

verus! {

#[verifier::external_type_specification]
#[verifier::external_body]
pub struct ExPool(cap_std::net::Pool);


/// An IP address: a version 4 address as its 32 bits, a version 6 address as
/// its 128 bits.
#[derive(Clone, Copy, Debug, PartialEq, Eq, Structural)]
pub enum IpAddress {
    V4(u32),
    V6(u128),
}

/// A socket address: an IP address and a port.
#[derive(Clone, Copy, Debug, PartialEq, Eq, Structural)]
pub struct SocketAddress {
    pub ip: IpAddress,
    pub port: u16,
}

/// An IP network: the addresses that share the first `prefix_len` bits of
/// `addr`.
#[derive(Clone, Copy, Debug, PartialEq, Eq, Structural)]
pub struct IpNetwork {
    pub addr: IpAddress,
    pub prefix_len: u8,
}

/// One authorization: the addresses of `net` on ports from `ports_start`
/// up to, and not including, `ports_end` (no upper end where it is `None`).
#[derive(Clone, Copy, Debug, PartialEq, Eq, Structural)]
pub struct Grant {
    pub net: IpNetwork,
    pub ports_start: u16,
    pub ports_end: Option<u16>,
}

pub open spec fn addr_bits(a: IpAddress) -> nat {
    match a {
        IpAddress::V4(_) => 32,
        IpAddress::V6(_) => 128,
    }
}

pub open spec fn addr_value(a: IpAddress) -> nat {
    match a {
        IpAddress::V4(x) => x as nat,
        IpAddress::V6(x) => x as nat,
    }
}

pub open spec fn same_family(a: IpAddress, b: IpAddress) -> bool {
    match (a, b) {
        (IpAddress::V4(_), IpAddress::V4(_)) => true,
        (IpAddress::V6(_), IpAddress::V6(_)) => true,
        _ => false,
    }
}

impl IpNetwork {
    /// The prefix length fits the address family.
    pub open spec fn wf(&self) -> bool {
        self.prefix_len <= addr_bits(self.addr)
    }

    /// The network holds `a`: same family, and the same leading
    /// `prefix_len` bits.
    pub open spec fn contains(&self, a: IpAddress) -> bool {
        let host_bits = (addr_bits(self.addr) - self.prefix_len) as nat;
        same_family(self.addr, a) && addr_value(a) / pow2(host_bits) == addr_value(self.addr)
            / pow2(host_bits)
    }
}

pub open spec fn pow2(n: nat) -> nat
    decreases n,
{
    if n == 0 {
        1
    } else {
        2 * pow2((n - 1) as nat)
    }
}

impl Grant {
    pub open spec fn covers(&self, a: SocketAddress) -> bool {
        &&& self.net.contains(a.ip)
        &&& self.ports_start <= a.port
        &&& match self.ports_end {
            Some(end) => a.port < end,
            None => true,
        }
    }
}

/// The grants recorded in a pool, in the order they were inserted.
pub uninterp spec fn pool_grants(p: cap_std::net::Pool) -> Seq<Grant>;

/// Whether any of `grants` covers `a`.
pub open spec fn authorized(grants: Seq<Grant>, a: SocketAddress) -> bool {
    exists|i: int| 0 <= i < grants.len() && (#[trigger] grants[i]).covers(a)
}

/// The grant that an any-port insertion of `net` records.
pub open spec fn any_port_grant(net: IpNetwork) -> Grant {
    Grant { net, ports_start: 0, ports_end: None }
}

/// The grant that a single-port insertion of `net` records.
pub open spec fn single_port_grant(net: IpNetwork, port: u16) -> Grant {
    Grant {
        net,
        ports_start: port,
        ports_end: if port < u16::MAX {
            Some((port + 1) as u16)
        } else {
            None
        },
    }
}

/// Relies on cap_std::net::Pool::new: a new pool holds no grant.
#[verifier::external_body]
fn new_cap_pool() -> (p: cap_std::net::Pool)
    ensures
        pool_grants(p) == Seq::<Grant>::empty(),
{
    cap_std::net::Pool::new()
}

/// Relies on cap_std::net::Pool::insert_ip_net_port_range: it appends one
/// grant of `net` on the ports `[start, end)`. ipnet::IpNet::new fails only
/// on a prefix longer than the address, which `net.wf()` rules out; the
/// same holds for the two wrappers below.
#[verifier::external_body]
fn cap_pool_insert_range(p: &mut cap_std::net::Pool, net: IpNetwork, start: u16, end: Option<u16>)
    requires
        net.wf(),
    ensures
        pool_grants(*final(p)) == pool_grants(*old(p)).push(
            Grant { net, ports_start: start, ports_end: end },
        ),
{
    let ip = match net.addr {
        IpAddress::V4(x) => cap_std::net::IpAddr::V4(cap_std::net::Ipv4Addr::from(x)),
        IpAddress::V6(x) => cap_std::net::IpAddr::V6(cap_std::net::Ipv6Addr::from(x)),
    };
    let ip_net = cap_std::ipnet::IpNet::new(ip, net.prefix_len).unwrap();
    p.insert_ip_net_port_range(ip_net, start, end, cap_std::ambient_authority())
}

/// Relies on cap_std::net::Pool::insert_ip_net_port_any: it appends one
/// grant of `net` on every port.
#[verifier::external_body]
fn cap_pool_insert_any(p: &mut cap_std::net::Pool, net: IpNetwork)
    requires
        net.wf(),
    ensures
        pool_grants(*final(p)) == pool_grants(*old(p)).push(any_port_grant(net)),
{
    let ip = match net.addr {
        IpAddress::V4(x) => cap_std::net::IpAddr::V4(cap_std::net::Ipv4Addr::from(x)),
        IpAddress::V6(x) => cap_std::net::IpAddr::V6(cap_std::net::Ipv6Addr::from(x)),
    };
    let ip_net = cap_std::ipnet::IpNet::new(ip, net.prefix_len).unwrap();
    p.insert_ip_net_port_any(ip_net, cap_std::ambient_authority())
}

/// Relies on cap_std::net::Pool::insert_ip_net: it appends one grant of
/// `net` on the single port `port` (`port.checked_add(1)` as its end).
#[verifier::external_body]
fn cap_pool_insert_port(p: &mut cap_std::net::Pool, net: IpNetwork, port: u16)
    requires
        net.wf(),
    ensures
        pool_grants(*final(p)) == pool_grants(*old(p)).push(single_port_grant(net, port)),
{
    let ip = match net.addr {
        IpAddress::V4(x) => cap_std::net::IpAddr::V4(cap_std::net::Ipv4Addr::from(x)),
        IpAddress::V6(x) => cap_std::net::IpAddr::V6(cap_std::net::Ipv6Addr::from(x)),
    };
    let ip_net = cap_std::ipnet::IpNet::new(ip, net.prefix_len).unwrap();
    p.insert_ip_net(ip_net, port, cap_std::ambient_authority())
}

/// Relies on cap_std::net::Pool::insert_socket_addr: it appends one grant
/// of the network holding `a.ip` alone, on the single port `a.port`.
#[verifier::external_body]
fn cap_pool_insert_socket_addr(p: &mut cap_std::net::Pool, a: SocketAddress)
    ensures
        pool_grants(*final(p)) == pool_grants(*old(p)).push(
            single_port_grant(host_network(a.ip), a.port),
        ),
{
    let ip = match a.ip {
        IpAddress::V4(x) => cap_std::net::IpAddr::V4(cap_std::net::Ipv4Addr::from(x)),
        IpAddress::V6(x) => cap_std::net::IpAddr::V6(cap_std::net::Ipv6Addr::from(x)),
    };
    p.insert_socket_addr(cap_std::net::SocketAddr::new(ip, a.port), cap_std::ambient_authority())
}

/// Relies on the `check_addr` of the pool under cap_std::net::Pool: it
/// succeeds exactly when some grant's network contains the address and its
/// port range holds the port.
#[verifier::external_body]
fn cap_pool_check(p: &cap_std::net::Pool, a: SocketAddress) -> (r: bool)
    ensures
        r == authorized(pool_grants(*p), a),
{
    let ip = match a.ip {
        IpAddress::V4(x) => cap_std::net::IpAddr::V4(cap_std::net::Ipv4Addr::from(x)),
        IpAddress::V6(x) => cap_std::net::IpAddr::V6(cap_std::net::Ipv6Addr::from(x)),
    };
    p._pool().check_addr(&cap_std::net::SocketAddr::new(ip, a.port)).is_ok()
}

/// The network authorizations of one host context. Authorization only
/// grows: nothing is ever taken out of the pool.
pub struct NetworkPool {
    pool: cap_std::net::Pool,
}

impl NetworkPool {
    /// The grants recorded so far, in insertion order.
    pub closed spec fn grants(&self) -> Seq<Grant> {
        pool_grants(self.pool)
    }

    pub fn new() -> (p: NetworkPool)
        ensures
            p.grants() == Seq::<Grant>::empty(),
    {
        NetworkPool { pool: new_cap_pool() }
    }

    /// Authorizes every address of `net` on every port.
    pub fn insert_ip_net_port_any(&mut self, net: IpNetwork)
        requires
            net.wf(),
        ensures
            final(self).grants() == old(self).grants().push(any_port_grant(net)),
    {
        cap_pool_insert_any(&mut self.pool, net);
    }

    /// Authorizes every address of `net` on the ports from `ports_start` up
    /// to, and not including, `ports_end` (every later port where it is
    /// `None`).
    pub fn insert_ip_net_port_range(
        &mut self,
        net: IpNetwork,
        ports_start: u16,
        ports_end: Option<u16>,
    )
        requires
            net.wf(),
        ensures
            final(self).grants() == old(self).grants().push(
                Grant { net, ports_start, ports_end },
            ),
    {
        cap_pool_insert_range(&mut self.pool, net, ports_start, ports_end);
    }

    /// Authorizes every address of `net` on the one port `port`.
    pub fn insert_ip_net(&mut self, net: IpNetwork, port: u16)
        requires
            net.wf(),
        ensures
            final(self).grants() == old(self).grants().push(single_port_grant(net, port)),
    {
        cap_pool_insert_port(&mut self.pool, net, port);
    }

    /// Authorizes the one socket address `addr`.
    pub fn insert_socket_addr(&mut self, addr: SocketAddress)
        ensures
            final(self).grants() == old(self).grants().push(
                single_port_grant(host_network(addr.ip), addr.port),
            ),
    {
        cap_pool_insert_socket_addr(&mut self.pool, addr);
    }

    /// Authorizes every version 4 and every version 6 address on every port.
    pub fn insert_all(&mut self)
        ensures
            final(self).grants() == old(self).grants().push(any_port_grant(all_v4())).push(
                any_port_grant(all_v6()),
            ),
    {
        cap_pool_insert_any(&mut self.pool, IpNetwork { addr: IpAddress::V4(0), prefix_len: 0 });
        cap_pool_insert_any(&mut self.pool, IpNetwork { addr: IpAddress::V6(0), prefix_len: 0 });
    }

    /// Whether some grant covers `addr`.
    pub fn is_authorized(&self, addr: SocketAddress) -> (r: bool)
        ensures
            r == authorized(self.grants(), addr),
    {
        cap_pool_check(&self.pool, addr)
    }
}

/// The network that holds `ip` alone.
pub open spec fn host_network(ip: IpAddress) -> IpNetwork {
    IpNetwork { addr: ip, prefix_len: addr_bits(ip) as u8 }
}

/// Every version 4 address.
pub open spec fn all_v4() -> IpNetwork {
    IpNetwork { addr: IpAddress::V4(0), prefix_len: 0 }
}

/// Every version 6 address.
pub open spec fn all_v6() -> IpNetwork {
    IpNetwork { addr: IpAddress::V6(0), prefix_len: 0 }
}

/// Inserting an any-port grant of `net` authorizes every address of `net`
/// on every port, whatever the pool held before.
pub proof fn lemma_any_port_authorizes(grants: Seq<Grant>, net: IpNetwork, a: SocketAddress)
    requires
        net.contains(a.ip),
    ensures
        authorized(grants.push(any_port_grant(net)), a),
{
    let g = grants.push(any_port_grant(net));
    assert(g[grants.len() as int].covers(a));
}

/// In a pool that holds one ranged grant, an address is authorized exactly
/// when its network holds it and its port lies in `[start, end)`.
pub proof fn lemma_range_authorizes_exactly(
    net: IpNetwork,
    start: u16,
    end: u16,
    a: SocketAddress,
)
    ensures
        authorized(seq![Grant { net, ports_start: start, ports_end: Some(end) }], a) <==> (
        net.contains(a.ip) && start <= a.port && a.port < end),
{
    let g = seq![Grant { net, ports_start: start, ports_end: Some(end) }];
    if net.contains(a.ip) && start <= a.port && a.port < end {
        assert(g[0].covers(a));
    }
}

/// A pool with no grant authorizes nothing.
pub proof fn lemma_empty_authorizes_nothing(a: SocketAddress)
    ensures
        !authorized(Seq::<Grant>::empty(), a),
{
}

/// An insertion authorizes no address that its own grant does not cover,
/// and revokes none: authorization is additive.
pub proof fn lemma_insert_is_additive(grants: Seq<Grant>, g: Grant, a: SocketAddress)
    ensures
        authorized(grants.push(g), a) <==> (authorized(grants, a) || g.covers(a)),
{
    let h = grants.push(g);
    if authorized(grants, a) {
        let i = choose|i: int| 0 <= i < grants.len() && (#[trigger] grants[i]).covers(a);
        assert(h[i] == grants[i]);
    }
    if g.covers(a) {
        assert(h[grants.len() as int] == g);
    }
    if authorized(h, a) && !g.covers(a) {
        let i = choose|i: int| 0 <= i < h.len() && (#[trigger] h[i]).covers(a);
        assert(i < grants.len());
        assert(grants[i] == h[i]);
    }
}

proof fn lemma_pow2_add(m: nat, n: nat)
    ensures
        pow2(m + n) == pow2(m) * pow2(n),
    decreases m,
{
    if m == 0 {
        assert(pow2(0) == 1);
    } else {
        let k = (m - 1) as nat;
        lemma_pow2_add(k, n);
        assert(pow2(m + n) == 2 * pow2(k + n));
        assert(pow2(m) == 2 * pow2(k));
        let a = pow2(k);
        let b = pow2(n);
        assert((2 * a) * b == 2 * (a * b)) by (nonlinear_arith);
    }
}

proof fn lemma_pow2_values()
    ensures
        pow2(32) == 0x1_0000_0000nat,
        pow2(128) == 0x1_0000_0000_0000_0000_0000_0000_0000_0000nat,
{
    reveal_with_fuel(pow2, 33);
    lemma_pow2_add(32, 32);
    assert(pow2(64) == 0x1_0000_0000_0000_0000nat) by (nonlinear_arith)
        requires
            pow2(64) == pow2(32) * pow2(32),
            pow2(32) == 0x1_0000_0000nat,
    ;
    lemma_pow2_add(64, 64);
    assert(pow2(128) == 0x1_0000_0000_0000_0000_0000_0000_0000_0000nat) by (nonlinear_arith)
        requires
            pow2(128) == pow2(64) * pow2(64),
            pow2(64) == 0x1_0000_0000_0000_0000nat,
    ;
}

/// The network of prefix length zero holds every address of its family.
pub proof fn lemma_whole_network_contains(net: IpNetwork, a: IpAddress)
    requires
        net.prefix_len == 0,
        same_family(net.addr, a),
    ensures
        net.contains(a),
{
    lemma_pow2_values();
    let p = pow2(addr_bits(net.addr));
    assert(addr_value(a) < p && addr_value(net.addr) < p);
    vstd::arithmetic::div_mod::lemma_basic_div(addr_value(a) as int, p as int);
    vstd::arithmetic::div_mod::lemma_basic_div(addr_value(net.addr) as int, p as int);
}

/// After authorizing every version 4 and every version 6 network on any
/// port, every socket address is authorized.
pub proof fn lemma_whole_networks_authorize_all(grants: Seq<Grant>, a: SocketAddress)
    ensures
        authorized(grants.push(any_port_grant(all_v4())).push(any_port_grant(all_v6())), a),
{
    let g = grants.push(any_port_grant(all_v4()));
    match a.ip {
        IpAddress::V4(_) => {
            lemma_whole_network_contains(all_v4(), a.ip);
            lemma_any_port_authorizes(grants, all_v4(), a);
            lemma_insert_is_additive(g, any_port_grant(all_v6()), a);
        },
        IpAddress::V6(_) => {
            lemma_whole_network_contains(all_v6(), a.ip);
            lemma_any_port_authorizes(g, all_v6(), a);
        },
    }
}

} // verus!
