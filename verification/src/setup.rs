//! How the simulation's nodes, relay and initial reference are drawn from random values.
use vstd::prelude::*;
use crate::net::{IpAddr, Ipv4Net, SocketAddrV4, SocketAddrV6, v4_block};
use crate::node::{PrivateKey, SimNode};
use crate::relay::{Allocations, IpStack, SimRelay};
use crate::reference::DnsServer;
use crate::sample::{SampleIndex, sample_position};

verus! {

/// The first address of the CG-NAT block 100.64.0.0/10, from which the client's IPv4
/// tunnel address is drawn.
pub const CGNAT_BASE: u32 = 0x6440_0000;

/// The prefix length of the CG-NAT block.
pub const CGNAT_PREFIX: u8 = 10;

/// The IPv4 tunnel address that `idx` picks among the hosts of the CG-NAT block.
pub open spec fn tunnel_ip4_spec(idx: SampleIndex) -> u32 {
    (CGNAT_BASE + 1 + sample_position(idx.raw, 0x3f_fffe)) as u32
}

/// Draws the IPv4 tunnel address: one of the hosts of 100.64.0.0/10.
pub fn tunnel_ip4(idx: &SampleIndex) -> (r: u32)
    ensures
        r == tunnel_ip4_spec(*idx),
        0x6440_0001 <= r <= 0x647f_fffe,
{
    proof {
        vstd::arithmetic::power2::lemma2_to64();
        assert(v4_block(CGNAT_PREFIX) == 0x40_0000);
    }
    let cgnat_block = Ipv4Net::new(CGNAT_BASE, CGNAT_PREFIX).unwrap();
    let num_hosts = cgnat_block.hosts_len();
    let i = idx.index(num_hosts);
    cgnat_block.nth_host(i).unwrap()
}

/// A node as the simulation draws it: a socket on each address of `ip_stack`, on the
/// given ports, with the given key and tunnel addresses.
pub fn node_prototype(
    id: u128,
    key: [u8; 32],
    ip_stack: IpStack,
    v4_port: u16,
    v6_port: u16,
    tunnel_ip4: u32,
    tunnel_ip6: u128,
) -> (r: SimNode<PrivateKey>)
    ensures
        r.id == id,
        r.state.bytes == key,
        r.ip4_socket == (match ip_stack.v4() {
            Some(ip) => Some(SocketAddrV4 { ip, port: v4_port }),
            None => None::<SocketAddrV4>,
        }),
        r.ip6_socket == (match ip_stack.v6() {
            Some(ip) => Some(SocketAddrV6 { ip, port: v6_port, flowinfo: 0, scope_id: 0 }),
            None => None::<SocketAddrV6>,
        }),
        r.tunnel_ip4 == tunnel_ip4,
        r.tunnel_ip6 == tunnel_ip6,
{
    let ip4_socket = match ip_stack.as_v4() {
        Some(ip) => Some(SocketAddrV4 { ip, port: v4_port }),
        None => None,
    };
    let ip6_socket = match ip_stack.as_v6() {
        Some(ip) => Some(SocketAddrV6 { ip, port: v6_port, flowinfo: 0, scope_id: 0 }),
        None => None,
    };
    SimNode { id, state: PrivateKey { bytes: key }, ip4_socket, ip6_socket, tunnel_ip4, tunnel_ip6 }
}

/// A relay as the simulation draws it: its server's seed, its addresses and its id, with
/// no allocations yet.
pub fn relay_prototype(seed: u64, ip_stack: IpStack, id: u128) -> (r: SimRelay<u64>)
    ensures
        r.id == id,
        r.state == seed,
        r.ip_stack == ip_stack,
        r.allocations@ == Set::<(crate::relay::AddressFamily, crate::relay::AllocationPort)>::empty(),
{
    SimRelay { id, state: seed, ip_stack, allocations: Allocations::new() }
}

/// An upstream DNS server as the simulation draws it: port 53 of the address.
pub fn upstream_dns_server(ip: IpAddr) -> (r: DnsServer)
    ensures
        r.address == crate::net::socket_addr_of(ip, 53),
{
    DnsServer::from_ip_port(ip, 53)
}

/// Both options hold the same value.
pub open spec fn both_equal<T>(a: Option<T>, b: Option<T>) -> bool {
    a is Some && b is Some && a->0 == b->0
}

/// The client, the gateway and the relay share no address of either family.
pub open spec fn addresses_distinct_spec(client: SimNode<PrivateKey>, gateway: SimNode<PrivateKey>, relay: IpStack) -> bool {
    let c4 = match client.ip4_socket { Some(s) => Some(s.ip), None => None::<u32> };
    let g4 = match gateway.ip4_socket { Some(s) => Some(s.ip), None => None::<u32> };
    let c6 = match client.ip6_socket { Some(s) => Some(s.ip), None => None::<u128> };
    let g6 = match gateway.ip6_socket { Some(s) => Some(s.ip), None => None::<u128> };
    &&& !both_equal(c4, g4)
    &&& !both_equal(c6, g6)
    &&& !both_equal(c4, relay.v4())
    &&& !both_equal(c6, relay.v6())
    &&& !both_equal(g4, relay.v4())
    &&& !both_equal(g6, relay.v6())
}

fn same_v4(a: Option<u32>, b: Option<u32>) -> (r: bool)
    ensures
        r == both_equal(a, b),
{
    match (a, b) {
        (Some(x), Some(y)) => x == y,
        _ => false,
    }
}

fn same_v6(a: Option<u128>, b: Option<u128>) -> (r: bool)
    ensures
        r == both_equal(a, b),
{
    match (a, b) {
        (Some(x), Some(y)) => x == y,
        _ => false,
    }
}

/// Whether the client, the gateway and the relay are at different addresses.
pub fn addresses_distinct(client: &SimNode<PrivateKey>, gateway: &SimNode<PrivateKey>, relay: &IpStack) -> (r: bool)
    ensures
        r == addresses_distinct_spec(*client, *gateway, *relay),
{
    let c4 = match client.ip4_socket { Some(s) => Some(s.ip), None => None };
    let g4 = match gateway.ip4_socket { Some(s) => Some(s.ip), None => None };
    let c6 = match client.ip6_socket { Some(s) => Some(s.ip), None => None };
    let g6 = match gateway.ip6_socket { Some(s) => Some(s.ip), None => None };
    let r4 = relay.as_v4();
    let r6 = relay.as_v6();
    !same_v4(c4, g4) && !same_v6(c6, g6) && !same_v4(c4, r4) && !same_v6(c6, r6) && !same_v4(g4, r4)
        && !same_v6(g6, r6)
}

/// Whether the client's and the gateway's keys differ.
pub fn keys_distinct(client: &SimNode<PrivateKey>, gateway: &SimNode<PrivateKey>) -> (r: bool)
    ensures
        r == (client.state.bytes@ != gateway.state.bytes@),
{
    !client.state.same_as(&gateway.state)
}

} // verus!
