//! IP addresses, socket addresses and CIDR networks as plain values.
use vstd::prelude::*;
use vstd::arithmetic::power2::*;

verus! {

/// An IPv4 or IPv6 address, held as its 32 or 128 bits.
#[derive(Clone, Copy, Debug, PartialEq, Eq, Structural)]
pub enum IpAddr {
    V4(u32),
    V6(u128),
}

impl IpAddr {
    pub fn is_ipv4(&self) -> (r: bool)
        ensures
            r == (*self is V4),
    {
        match self {
            IpAddr::V4(_) => true,
            IpAddr::V6(_) => false,
        }
    }

    pub fn is_ipv6(&self) -> (r: bool)
        ensures
            r == (*self is V6),
    {
        match self {
            IpAddr::V4(_) => false,
            IpAddr::V6(_) => true,
        }
    }
}

/// An IPv4 socket address.
#[derive(Clone, Copy, Debug, PartialEq, Eq, Structural)]
pub struct SocketAddrV4 {
    pub ip: u32,
    pub port: u16,
}

/// An IPv6 socket address, with its flow information and scope id.
#[derive(Clone, Copy, Debug, PartialEq, Eq, Structural)]
pub struct SocketAddrV6 {
    pub ip: u128,
    pub port: u16,
    pub flowinfo: u32,
    pub scope_id: u32,
}

/// A socket address of either family.
#[derive(Clone, Copy, Debug, PartialEq, Eq, Structural)]
pub enum SocketAddr {
    V4(SocketAddrV4),
    V6(SocketAddrV6),
}

/// The socket address that `SocketAddr::new` builds: an IPv6 one has flow information
/// and scope id zero.
pub open spec fn socket_addr_of(ip: IpAddr, port: u16) -> SocketAddr {
    match ip {
        IpAddr::V4(a) => SocketAddr::V4(SocketAddrV4 { ip: a, port }),
        IpAddr::V6(a) => SocketAddr::V6(SocketAddrV6 { ip: a, port, flowinfo: 0, scope_id: 0 }),
    }
}

impl SocketAddr {
    pub open spec fn ip_spec(self) -> IpAddr {
        match self {
            SocketAddr::V4(s) => IpAddr::V4(s.ip),
            SocketAddr::V6(s) => IpAddr::V6(s.ip),
        }
    }

    pub open spec fn port_spec(self) -> u16 {
        match self {
            SocketAddr::V4(s) => s.port,
            SocketAddr::V6(s) => s.port,
        }
    }

    pub fn new(ip: IpAddr, port: u16) -> (r: SocketAddr)
        ensures
            r == socket_addr_of(ip, port),
    {
        match ip {
            IpAddr::V4(a) => SocketAddr::V4(SocketAddrV4 { ip: a, port }),
            IpAddr::V6(a) => SocketAddr::V6(SocketAddrV6 { ip: a, port, flowinfo: 0, scope_id: 0 }),
        }
    }

    pub fn ip(&self) -> (r: IpAddr)
        ensures
            r == self.ip_spec(),
    {
        match self {
            SocketAddr::V4(s) => IpAddr::V4(s.ip),
            SocketAddr::V6(s) => IpAddr::V6(s.ip),
        }
    }

    pub fn port(&self) -> (r: u16)
        ensures
            r == self.port_spec(),
    {
        match self {
            SocketAddr::V4(s) => s.port,
            SocketAddr::V6(s) => s.port,
        }
    }

    pub fn is_ipv4(&self) -> (r: bool)
        ensures
            r == (*self is V4),
    {
        match self {
            SocketAddr::V4(_) => true,
            SocketAddr::V6(_) => false,
        }
    }
}

/// Number of addresses in an IPv4 network with the given prefix length.
pub open spec fn v4_block(prefix: u8) -> nat {
    pow2((32 - prefix) as nat)
}

/// Number of addresses in an IPv6 network with the given prefix length.
pub open spec fn v6_block(prefix: u8) -> nat {
    pow2((128 - prefix) as nat)
}

/// An IPv4 network: its first address and its prefix length.
#[derive(Clone, Copy, Debug, PartialEq, Eq, Structural)]
pub struct Ipv4Net {
    pub addr: u32,
    pub prefix: u8,
}

/// An IPv6 network: its first address and its prefix length.
#[derive(Clone, Copy, Debug, PartialEq, Eq, Structural)]
pub struct Ipv6Net {
    pub addr: u128,
    pub prefix: u8,
}

impl Ipv4Net {
    /// A valid network has a prefix of at most 32 bits and no host bits set.
    pub open spec fn wf(self) -> bool {
        &&& self.prefix <= 32
        &&& self.addr as nat % v4_block(self.prefix) == 0
    }

    pub open spec fn contains_spec(self, ip: u32) -> bool {
        self.addr <= ip && ip < self.addr + v4_block(self.prefix)
    }

    /// Number of host addresses: all but the network and broadcast address; none in a
    /// /31 or /32.
    pub open spec fn host_count(self) -> nat {
        if self.prefix >= 31 {
            0
        } else {
            (v4_block(self.prefix) - 2) as nat
        }
    }
}

impl Ipv6Net {
    pub open spec fn wf(self) -> bool {
        &&& self.prefix <= 128
        &&& self.addr as nat % v6_block(self.prefix) == 0
    }

    pub open spec fn contains_spec(self, ip: u128) -> bool {
        self.addr <= ip && ip < self.addr + v6_block(self.prefix)
    }

    /// Number of single-address (/128) subnets: none in a /128 network.
    pub open spec fn subnet_count(self) -> nat {
        if self.prefix == 128 {
            0
        } else {
            v6_block(self.prefix)
        }
    }
}


/// Builds a network with `ip_network::Ipv4Network::new`, which refuses a prefix longer
/// than 32 bits or an address with host bits set.
#[verifier::external_body]
fn ipv4_network_new(addr: u32, prefix: u8) -> (r: Option<Ipv4Net>)
    ensures
        r is Some <==> (prefix <= 32 && addr as nat % v4_block(prefix) == 0),
        r matches Some(n) ==> n.addr == addr && n.prefix == prefix,
{
    match ip_network::Ipv4Network::new(addr.into(), prefix) {
        Ok(n) => Some(Ipv4Net { addr: u32::from(n.network_address()), prefix: n.netmask() }),
        Err(_) => None,
    }
}

/// `ip_network::Ipv4Network::hosts().len()`: every address of the network but the
/// network and broadcast address, none for a /31 or /32.
#[verifier::external_body]
fn ipv4_hosts_len(net: &Ipv4Net) -> (r: usize)
    requires
        net.wf(),
    ensures
        r == net.host_count(),
{
    ip_network::Ipv4Network::new(net.addr.into(), net.prefix).unwrap().hosts().len()
}

/// `ip_network::Ipv4Network::hosts().nth(n)`: the hosts come in ascending order, starting
/// one above the network address.
#[verifier::external_body]
fn ipv4_nth_host(net: &Ipv4Net, n: usize) -> (r: Option<u32>)
    requires
        net.wf(),
    ensures
        r == (if n < net.host_count() { Some((net.addr + 1 + n) as u32) } else { None::<u32> }),
{
    match ip_network::Ipv4Network::new(net.addr.into(), net.prefix).unwrap().hosts().nth(n) {
        Some(a) => Some(u32::from(a)),
        None => None,
    }
}

/// `ip_network::Ipv4Network::contains`: the address agrees with the network address on
/// the prefix bits, that is, it lies in the network's range.
#[verifier::external_body]
fn ipv4_contains(net: &Ipv4Net, ip: u32) -> (r: bool)
    requires
        net.wf(),
    ensures
        r == net.contains_spec(ip),
{
    ip_network::Ipv4Network::new(net.addr.into(), net.prefix).unwrap().contains(ip.into())
}

/// Builds a network with `ip_network::Ipv6Network::new`, which refuses a prefix longer
/// than 128 bits or an address with host bits set.
#[verifier::external_body]
fn ipv6_network_new(addr: u128, prefix: u8) -> (r: Option<Ipv6Net>)
    ensures
        r is Some <==> (prefix <= 128 && addr as nat % v6_block(prefix) == 0),
        r matches Some(n) ==> n.addr == addr && n.prefix == prefix,
{
    match ip_network::Ipv6Network::new(addr.into(), prefix) {
        Ok(n) => Some(Ipv6Net { addr: u128::from(n.network_address()), prefix: n.netmask() }),
        Err(_) => None,
    }
}

/// `ip_network::Ipv6Network::subnets_with_prefix(128).len()`: one subnet per address,
/// none for a /128. The length panics where the count does not fit a `usize`, which the
/// precondition leaves out.
#[verifier::external_body]
fn ipv6_subnet_len(net: &Ipv6Net) -> (r: usize)
    requires
        net.wf(),
        net.subnet_count() <= usize::MAX,
    ensures
        r == net.subnet_count(),
{
    ip_network::Ipv6Network::new(net.addr.into(), net.prefix).unwrap().subnets_with_prefix(128).len()
}

/// `ip_network::Ipv6Network::subnets_with_prefix(128).nth(n)`, taken by its network
/// address: the subnets come in ascending order from the network address.
#[verifier::external_body]
fn ipv6_nth_subnet(net: &Ipv6Net, n: usize) -> (r: Option<u128>)
    requires
        net.wf(),
    ensures
        r == (if n < net.subnet_count() { Some((net.addr + n) as u128) } else { None::<u128> }),
{
    match ip_network::Ipv6Network::new(net.addr.into(), net.prefix).unwrap().subnets_with_prefix(128).nth(n) {
        Some(s) => Some(u128::from(s.network_address())),
        None => None,
    }
}

/// `ip_network::Ipv6Network::contains`: the address lies in the network's range.
#[verifier::external_body]
fn ipv6_contains(net: &Ipv6Net, ip: u128) -> (r: bool)
    requires
        net.wf(),
    ensures
        r == net.contains_spec(ip),
{
    ip_network::Ipv6Network::new(net.addr.into(), net.prefix).unwrap().contains(ip.into())
}

/// An aligned block that starts below an aligned bound ends at or below it.
pub proof fn lemma_aligned_block_fits(a: nat, b: nat, m: nat)
    requires
        b > 0,
        a % b == 0,
        m % b == 0,
        a < m,
    ensures
        a + b <= m,
{
    vstd::arithmetic::div_mod::lemma_fundamental_div_mod(a as int, b as int);
    vstd::arithmetic::div_mod::lemma_fundamental_div_mod(m as int, b as int);
    let qa = a as int / b as int;
    let qm = m as int / b as int;
    assert(qa < qm) by (nonlinear_arith)
        requires
            a == b * qa,
            m == b * qm,
            a < m,
            b > 0,
    ;
    assert(b * qa + b <= b * qm) by (nonlinear_arith)
        requires
            qa < qm,
            b > 0,
    ;
}

/// A valid IPv4 network ends within the address space.
pub proof fn lemma_v4_net_fits(n: Ipv4Net)
    requires
        n.wf(),
    ensures
        v4_block(n.prefix) >= 1,
        n.addr + v4_block(n.prefix) <= 0x1_0000_0000,
        n.prefix <= 30 ==> v4_block(n.prefix) >= 4,
{
    let k = (32 - n.prefix) as nat;
    if k > 2 {
        lemma_pow2_strictly_increases(2, k);
    }
    lemma_pow2_pos(k);
    lemma2_to64();
    lemma_pow2_adds(n.prefix as nat, k);
    vstd::arithmetic::div_mod::lemma_mod_multiples_basic(pow2(n.prefix as nat) as int, pow2(k) as int);
    assert(pow2(32) == pow2(n.prefix as nat) * pow2(k));
    lemma_aligned_block_fits(n.addr as nat, pow2(k), pow2(32));
}

/// A valid IPv6 network ends within the address space.
pub proof fn lemma_v6_net_fits(n: Ipv6Net)
    requires
        n.wf(),
    ensures
        v6_block(n.prefix) >= 1,
        n.addr + v6_block(n.prefix) <= u128::MAX + 1,
{
    let k = (128 - n.prefix) as nat;
    lemma_pow2_pos(k);
    lemma2_to64();
    lemma_pow2_adds(64, 64);
    lemma_pow2_adds(n.prefix as nat, k);
    vstd::arithmetic::div_mod::lemma_mod_multiples_basic(pow2(n.prefix as nat) as int, pow2(k) as int);
    assert(pow2(128) == pow2(n.prefix as nat) * pow2(k));
    assert(pow2(128) == u128::MAX + 1);
    lemma_aligned_block_fits(n.addr as nat, pow2(k), pow2(128));
}

/// A power of two fits a `usize` exactly when its exponent is below the width of
/// `usize`.
pub proof fn lemma_pow2_fits_usize(k: nat)
    ensures
        pow2(k) <= usize::MAX <==> k < usize::BITS,
{
    lemma2_to64();
    lemma2_to64_rest();
    if k < usize::BITS {
        if k < usize::BITS - 1 {
            lemma_pow2_strictly_increases(k, (usize::BITS - 1) as nat);
        }
        lemma_pow2_unfold(usize::BITS as nat);
    } else if k > usize::BITS {
        lemma_pow2_strictly_increases(usize::BITS as nat, k);
    }
}

impl Ipv4Net {
    /// The network with the given address and prefix length, where it is a valid one.
    pub fn new(addr: u32, prefix: u8) -> (r: Option<Ipv4Net>)
        ensures
            r is Some <==> (prefix <= 32 && addr as nat % v4_block(prefix) == 0),
            r matches Some(n) ==> n.addr == addr && n.prefix == prefix && n.wf(),
    {
        ipv4_network_new(addr, prefix)
    }

    pub fn network_address(&self) -> (r: u32)
        ensures
            r == self.addr,
    {
        self.addr
    }

    pub fn netmask(&self) -> (r: u8)
        ensures
            r == self.prefix,
    {
        self.prefix
    }

    pub fn hosts_len(&self) -> (r: usize)
        requires
            self.wf(),
        ensures
            r == self.host_count(),
    {
        ipv4_hosts_len(self)
    }

    /// The `n`-th host address, counting from zero.
    pub fn nth_host(&self, n: usize) -> (r: Option<u32>)
        requires
            self.wf(),
        ensures
            r == (if n < self.host_count() { Some((self.addr + 1 + n) as u32) } else { None::<u32> }),
            r matches Some(a) ==> self.contains_spec(a),
    {
        proof {
            lemma_v4_net_fits(*self);
        }
        ipv4_nth_host(self, n)
    }

    pub fn contains(&self, ip: u32) -> (r: bool)
        requires
            self.wf(),
        ensures
            r == self.contains_spec(ip),
    {
        ipv4_contains(self, ip)
    }
}

impl Ipv6Net {
    /// The network with the given address and prefix length, where it is a valid one.
    pub fn new(addr: u128, prefix: u8) -> (r: Option<Ipv6Net>)
        ensures
            r is Some <==> (prefix <= 128 && addr as nat % v6_block(prefix) == 0),
            r matches Some(n) ==> n.addr == addr && n.prefix == prefix && n.wf(),
    {
        ipv6_network_new(addr, prefix)
    }

    pub fn network_address(&self) -> (r: u128)
        ensures
            r == self.addr,
    {
        self.addr
    }

    pub fn netmask(&self) -> (r: u8)
        ensures
            r == self.prefix,
    {
        self.prefix
    }

    pub fn subnets_len(&self) -> (r: usize)
        requires
            self.wf(),
            self.subnet_count() <= usize::MAX,
        ensures
            r == self.subnet_count(),
    {
        ipv6_subnet_len(self)
    }

    /// The network address of the `n`-th /128 subnet, counting from zero.
    pub fn nth_subnet_address(&self, n: usize) -> (r: Option<u128>)
        requires
            self.wf(),
        ensures
            r == (if n < self.subnet_count() { Some((self.addr + n) as u128) } else { None::<u128> }),
            r matches Some(a) ==> self.contains_spec(a),
    {
        proof {
            lemma_v6_net_fits(*self);
        }
        ipv6_nth_subnet(self, n)
    }

    pub fn contains(&self, ip: u128) -> (r: bool)
        requires
            self.wf(),
        ensures
            r == self.contains_spec(ip),
    {
        ipv6_contains(self, ip)
    }
}

/// A network of either family.
#[derive(Clone, Copy, Debug, PartialEq, Eq, Structural)]
pub enum IpNet {
    V4(Ipv4Net),
    V6(Ipv6Net),
}

impl IpNet {
    pub open spec fn wf(self) -> bool {
        match self {
            IpNet::V4(n) => n.wf(),
            IpNet::V6(n) => n.wf(),
        }
    }

    pub open spec fn contains_spec(self, ip: IpAddr) -> bool {
        match (self, ip) {
            (IpNet::V4(n), IpAddr::V4(a)) => n.contains_spec(a),
            (IpNet::V6(n), IpAddr::V6(a)) => n.contains_spec(a),
            _ => false,
        }
    }

    pub open spec fn prefix_spec(self) -> u8 {
        match self {
            IpNet::V4(n) => n.prefix,
            IpNet::V6(n) => n.prefix,
        }
    }

    pub fn is_ipv4(&self) -> (r: bool)
        ensures
            r == (*self is V4),
    {
        match self {
            IpNet::V4(_) => true,
            IpNet::V6(_) => false,
        }
    }

    pub fn is_ipv6(&self) -> (r: bool)
        ensures
            r == (*self is V6),
    {
        match self {
            IpNet::V4(_) => false,
            IpNet::V6(_) => true,
        }
    }

    pub fn contains(&self, ip: IpAddr) -> (r: bool)
        requires
            self.wf(),
        ensures
            r == self.contains_spec(ip),
    {
        match (self, ip) {
            (IpNet::V4(n), IpAddr::V4(a)) => n.contains(a),
            (IpNet::V6(n), IpAddr::V6(a)) => n.contains(a),
            _ => false,
        }
    }
}

} // verus!
