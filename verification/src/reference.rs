//! The reference state machine: what the client and gateway are expected to do.
use vstd::prelude::*;
use std::collections::{HashSet, VecDeque};
use crate::net::{IpAddr, IpNet, SocketAddr, socket_addr_of};
use crate::node::{PrivateKey, SimNode};
use crate::relay::SimRelay;
use crate::resource::ResourceCidr;
use crate::sample::{SampleIndex, sample_position, lemma_sample_position_in_range, lemma_sample_position_onto};
use crate::table::{ResourceTable, count_v4, matched_resource, networks_v4, networks_v6};
use vstd::std_specs::iter::IteratorSpec;

verus! {

broadcast use vstd::std_specs::hash::group_hash_axioms;

/// A DNS server, reached at a socket address.
#[derive(Clone, Copy, Debug, PartialEq, Eq, Structural)]
pub struct DnsServer {
    pub address: SocketAddr,
}

impl DnsServer {
    /// The server at `ip` and `port`.
    pub fn from_ip_port(ip: IpAddr, port: u16) -> (r: DnsServer)
        ensures
            r.address == socket_addr_of(ip, port),
    {
        DnsServer { address: SocketAddr::new(ip, port) }
    }

    pub fn address(&self) -> (r: SocketAddr)
        ensures
            r == self.address,
    {
        self.address
    }
}

/// A step of the simulation.
#[allow(inconsistent_fields)]
pub enum Transition {
    /// Add a new CIDR resource to the client.
    AddCidrResource(ResourceCidr),
    /// Send an ICMP echo request to any address.
    SendICMPPacketToRandomIp { dst: IpAddr, seq: u16, identifier: u16 },
    /// Send an ICMP echo request to an address of an IPv4 resource.
    SendICMPPacketToIp4Resource { r_idx: SampleIndex, seq: u16, identifier: u16 },
    /// Send an ICMP echo request to an address of an IPv6 resource.
    SendICMPPacketToIp6Resource { r_idx: SampleIndex, seq: u16, identifier: u16 },
    /// The system's DNS servers changed.
    UpdateSystemDnsServers { servers: Vec<IpAddr> },
    /// The upstream DNS servers changed.
    UpdateUpstreamDnsServers { servers: Vec<DnsServer> },
    /// Advance time by this many milliseconds.
    Tick { millis: u64 },
}

/// An ICMP handshake the reference expects: the destination, the sequence number and
/// the identifier of the request.
pub type Handshake = (IpAddr, u16, u16);

/// The reference state machine.
pub struct ReferenceState {
    /// The current time, in milliseconds on the simulation's clock.
    pub now: u64,
    pub client: SimNode<PrivateKey>,
    pub gateway: SimNode<PrivateKey>,
    /// The relay, whose state is the seed of its server's random numbers.
    pub relay: SimRelay<u64>,
    /// The DNS resolvers configured on the client's system.
    pub system_dns_resolvers: Vec<IpAddr>,
    /// The upstream DNS resolvers configured in the portal.
    pub upstream_dns_resolvers: Vec<DnsServer>,
    /// The resources the client is aware of.
    pub client_cidr_resources: ResourceTable,
    /// The resources the client has connected to.
    pub connected_resources: HashSet<u128>,
    /// The ICMP handshakes expected to complete, in the order they were sent.
    pub expected_icmp_handshakes: VecDeque<Handshake>,
}

/// The reference state as values: everything but the relay, which the reference never
/// changes.
pub struct RefView {
    pub now: u64,
    pub client: SimNode<PrivateKey>,
    pub gateway: SimNode<PrivateKey>,
    pub system_dns: Seq<IpAddr>,
    pub upstream_dns: Seq<DnsServer>,
    pub resources: Map<IpNet, ResourceCidr>,
    pub connected: Set<u128>,
    pub handshakes: Seq<Handshake>,
}

impl View for ReferenceState {
    type V = RefView;

    open spec fn view(&self) -> RefView {
        RefView {
            now: self.now,
            client: self.client,
            gateway: self.gateway,
            system_dns: self.system_dns_resolvers@,
            upstream_dns: self.upstream_dns_resolvers@,
            resources: self.client_cidr_resources@,
            connected: self.connected_resources@,
            handshakes: self.expected_icmp_handshakes@,
        }
    }
}

/// What an ICMP echo request to `dst` does to the reference: nothing where no resource
/// holds `dst`; where the resource that does is connected, its handshake is expected;
/// otherwise the request connects to the resource.
pub open spec fn echo_step(v: RefView, dst: IpAddr, seq: u16, identifier: u16) -> RefView {
    match matched_resource(v.resources, dst) {
        None => v,
        Some(r) => if v.connected.contains(r.id) {
            RefView { handshakes: v.handshakes.push((dst, seq, identifier)), ..v }
        } else {
            RefView { connected: v.connected.insert(r.id), ..v }
        },
    }
}

/// A request to `dst` is not a ping of the client itself, and no expected handshake has
/// both its sequence number and its identifier.
pub open spec fn valid_echo(v: RefView, dst: IpAddr, seq: u16, identifier: u16) -> bool {
    let not_self_ping = match dst {
        IpAddr::V4(a) => a != v.client.tunnel_ip4,
        IpAddr::V6(a) => a != v.client.tunnel_ip6,
    };
    let not_existing = forall|i: int|
        0 <= i < v.handshakes.len() ==> !((#[trigger] v.handshakes[i]).1 == seq && v.handshakes[i].2 == identifier);
    not_self_ping && not_existing
}

/// The DNS servers the client is expected to use: the upstream ones where the portal
/// configures any, else the system's, on port 53.
pub open spec fn expected_dns(v: RefView) -> Seq<SocketAddr> {
    if v.upstream_dns.len() > 0 {
        v.upstream_dns.map_values(|s: DnsServer| s.address)
    } else {
        v.system_dns.map_values(|ip: IpAddr| socket_addr_of(ip, 53))
    }
}

/// The kinds of transitions, by the strategy that generates them.
#[derive(Clone, Copy, Debug, PartialEq, Eq, Structural)]
pub enum TransitionKind {
    AddCidrResource,
    Tick,
    UpdateSystemDnsServers,
    UpdateUpstreamDnsServers,
    IcmpToRandomIp,
    IcmpToIp4Resource,
    IcmpToIp6Resource,
}

/// The weight of each kind of transition: one each for the kinds that need no resource,
/// three for sending to a resource of a family of which the client knows some.
pub open spec fn transition_weights_spec(num_ip4: nat, num_ip6: nat) -> Seq<(u32, TransitionKind)> {
    let base = seq![
        (1u32, TransitionKind::AddCidrResource),
        (1u32, TransitionKind::Tick),
        (1u32, TransitionKind::UpdateSystemDnsServers),
        (1u32, TransitionKind::UpdateUpstreamDnsServers),
        (1u32, TransitionKind::IcmpToRandomIp),
    ];
    let with4 = if num_ip4 > 0 { base.push((3u32, TransitionKind::IcmpToIp4Resource)) } else { base };
    if num_ip6 > 0 { with4.push((3u32, TransitionKind::IcmpToIp6Resource)) } else { with4 }
}

/// A copy of a vector of plain values.
fn copy_vec<T: Copy>(v: &Vec<T>) -> (r: Vec<T>)
    ensures
        r@ == v@,
{
    let mut out: Vec<T> = Vec::new();
    let mut i: usize = 0;
    while i < v.len()
        invariant
            i <= v@.len(),
            out@ == v@.take(i as int),
        decreases v@.len() - i,
    {
        out.push(v[i]);
        assert(v@.take(i + 1) =~= v@.take(i as int).push(v@[i as int]));
        i = i + 1;
    }
    assert(v@.take(v@.len() as int) =~= v@);
    out
}

/// A copy of a set of ids.
fn copy_id_set(v: &HashSet<u128>) -> (r: HashSet<u128>)
    ensures
        r@ == v@,
{
    let ghost keys = vstd::std_specs::hash::spec_hash_keys_iter(v).remaining();
    let mut out: HashSet<u128> = HashSet::new();
    for id in it: v.iter()
        invariant
            it.seq() == keys,
            out@ == keys.take(it.index() as int).unref().to_set(),
    {
        let ghost before = keys.take(it.index() as int);
        out.insert(*id);
        assert(keys.take(it.index() + 1).unref() =~= before.unref().push(*id));
        assert(out@ =~= keys.take(it.index() + 1).unref().to_set()) by {
            before.unref().lemma_push_to_set_commute(*id);
        }
    }
    assert(keys.take(keys.len() as int) =~= keys);
    out
}

/// A copy of a queue of plain values.
fn copy_deque<T: Copy>(v: &VecDeque<T>) -> (r: VecDeque<T>)
    ensures
        r@ == v@,
{
    let mut out: VecDeque<T> = VecDeque::new();
    let mut i: usize = 0;
    while i < v.len()
        invariant
            i <= v@.len(),
            out@ == v@.take(i as int),
        decreases v@.len() - i,
    {
        out.push_back(v[i]);
        assert(v@.take(i + 1) =~= v@.take(i as int).push(v@[i as int]));
        i = i + 1;
    }
    assert(v@.take(v@.len() as int) =~= v@);
    out
}

impl ReferenceState {
    pub open spec fn wf(&self) -> bool {
        self.client_cidr_resources.wf()
    }

    /// The number of IPv4 and of IPv6 resource networks.
    pub open spec fn num_ip4(&self) -> nat {
        networks_v4(self.client_cidr_resources@).len()
    }

    pub open spec fn num_ip6(&self) -> nat {
        networks_v6(self.client_cidr_resources@).len()
    }

    /// The IPv4 address that `idx` picks: a network among the IPv4 resources, then a
    /// host of it, or the network address where it has no hosts.
    pub open spec fn sampled_v4(&self, idx: SampleIndex) -> u32 {
        let order = self.client_cidr_resources.order();
        let pos = sample_position(idx.raw, count_v4(order) as int);
        let net = order[pos]->V4_0;
        if net.host_count() == 0 {
            net.addr
        } else {
            (net.addr + 1 + sample_position(idx.raw, net.host_count() as int)) as u32
        }
    }

    /// The IPv6 network that `idx` picks among the IPv6 resources.
    pub open spec fn sampled_v6_net(&self, idx: SampleIndex) -> crate::net::Ipv6Net {
        let order = self.client_cidr_resources.order();
        let n4 = count_v4(order);
        let pos = sample_position(idx.raw, order.len() - n4);
        order[n4 + pos]->V6_0
    }

    /// The IPv6 address that `idx` picks: one of the network's addresses, or its network
    /// address where it is a /128.
    pub open spec fn sampled_v6(&self, idx: SampleIndex) -> u128 {
        let net = self.sampled_v6_net(idx);
        if net.subnet_count() == 0 {
            net.addr
        } else {
            (net.addr + sample_position(idx.raw, net.subnet_count() as int)) as u128
        }
    }

    /// The picked IPv6 network has few enough addresses that their number fits a
    /// `usize`; counting them panics otherwise.
    pub open spec fn v6_sample_fits(&self, idx: SampleIndex) -> bool {
        self.sampled_v6_net(idx).subnet_count() <= usize::MAX
    }

    /// The view after `t`.
    pub open spec fn next_view(&self, t: Transition) -> RefView {
        let v = self@;
        match t {
            Transition::AddCidrResource(r) => RefView { resources: v.resources.insert(r.address, r), ..v },
            Transition::SendICMPPacketToRandomIp { dst, seq, identifier } => echo_step(v, dst, seq, identifier),
            Transition::SendICMPPacketToIp4Resource { r_idx, seq, identifier } => echo_step(
                v,
                IpAddr::V4(self.sampled_v4(r_idx)),
                seq,
                identifier,
            ),
            Transition::SendICMPPacketToIp6Resource { r_idx, seq, identifier } => echo_step(
                v,
                IpAddr::V6(self.sampled_v6(r_idx)),
                seq,
                identifier,
            ),
            Transition::UpdateSystemDnsServers { servers } => RefView { system_dns: servers@, ..v },
            Transition::UpdateUpstreamDnsServers { servers } => RefView { upstream_dns: servers@, ..v },
            Transition::Tick { millis } => RefView { now: (v.now + millis) as u64, ..v },
        }
    }

    /// Whether the reference accepts `t` in this state.
    pub open spec fn preconditions_spec(&self, t: Transition) -> bool {
        let v = self@;
        match t {
            Transition::AddCidrResource(r) => {
                &&& !(r.address is V6 && v.gateway.ip6_socket is None)
                &&& !(r.address is V4 && v.gateway.ip4_socket is None)
            },
            Transition::Tick { .. } => true,
            Transition::SendICMPPacketToRandomIp { dst, seq, identifier } => valid_echo(v, dst, seq, identifier),
            Transition::SendICMPPacketToIp4Resource { r_idx, seq, identifier } => self.num_ip4() != 0
                && valid_echo(v, IpAddr::V4(self.sampled_v4(r_idx)), seq, identifier),
            Transition::SendICMPPacketToIp6Resource { r_idx, seq, identifier } => self.num_ip6() != 0
                && valid_echo(v, IpAddr::V6(self.sampled_v6(r_idx)), seq, identifier),
            Transition::UpdateSystemDnsServers { .. } => true,
            Transition::UpdateUpstreamDnsServers { .. } => true,
        }
    }

    /// A fresh reference: the given nodes, relay, clock and DNS servers; no resources, no
    /// connections and no expected handshakes.
    pub fn new(
        now: u64,
        client: SimNode<PrivateKey>,
        gateway: SimNode<PrivateKey>,
        relay: SimRelay<u64>,
        system_dns_resolvers: Vec<IpAddr>,
        upstream_dns_resolvers: Vec<DnsServer>,
    ) -> (r: ReferenceState)
        ensures
            r.wf(),
            r@.now == now,
            r@.client == client,
            r@.gateway == gateway,
            r.relay == relay,
            r@.system_dns == system_dns_resolvers@,
            r@.upstream_dns == upstream_dns_resolvers@,
            r@.resources == Map::<IpNet, ResourceCidr>::empty(),
            r@.connected == Set::<u128>::empty(),
            r@.handshakes == Seq::<Handshake>::empty(),
    {
        ReferenceState {
            now,
            client,
            gateway,
            relay,
            system_dns_resolvers,
            upstream_dns_resolvers,
            client_cidr_resources: ResourceTable::new(),
            connected_resources: HashSet::new(),
            expected_icmp_handshakes: VecDeque::new(),
        }
    }

    /// What `apply` needs of a transition: a valid network for a new resource, a
    /// resource of the family to send to, an IPv6 network whose addresses can be counted,
    /// and a clock that does not overflow.
    pub open spec fn apply_requires(&self, t: Transition) -> bool {
        match t {
            Transition::AddCidrResource(r) => r.address.wf(),
            Transition::SendICMPPacketToIp4Resource { .. } => self.num_ip4() > 0,
            Transition::SendICMPPacketToIp6Resource { r_idx, .. } => self.num_ip6() > 0
                && self.v6_sample_fits(r_idx),
            Transition::Tick { millis } => self.now + millis <= u64::MAX,
            _ => true,
        }
    }

    /// Samples an IPv4 address from any of the IPv4 resources.
    pub fn sample_ipv4_cidr_resource_dst(&self, idx: &SampleIndex) -> (r: u32)
        requires
            self.wf(),
            self.num_ip4() > 0,
        ensures
            r == self.sampled_v4(*idx),
            matched_resource(self@.resources, IpAddr::V4(r)) is Some,
    {
        proof {
            self.client_cidr_resources.lemma_counts();
        }
        let (num_ip4_resources, _) = self.client_cidr_resources.len();
        let r_idx = idx.index(num_ip4_resources);
        let network = self.client_cidr_resources.nth_ipv4(r_idx).unwrap();
        proof {
            assert(self@.resources.dom().contains(IpNet::V4(network)));
        }
        let num_hosts = network.hosts_len();
        if num_hosts == 0 {
            proof {
                crate::net::lemma_v4_net_fits(network);
                self.client_cidr_resources.lemma_longest_match_exists(IpAddr::V4(network.addr), IpNet::V4(network));
            }
            return network.network_address();
        }
        let addr_idx = idx.index(num_hosts);
        let addr = network.nth_host(addr_idx).unwrap();
        proof {
            self.client_cidr_resources.lemma_longest_match_exists(IpAddr::V4(addr), IpNet::V4(network));
        }
        addr
    }

    /// Whether the IPv6 network that `idx` picks has few enough addresses to count.
    pub fn can_sample_ipv6(&self, idx: &SampleIndex) -> (r: bool)
        requires
            self.wf(),
            self.num_ip6() > 0,
        ensures
            r == self.v6_sample_fits(*idx),
    {
        proof {
            self.client_cidr_resources.lemma_counts();
        }
        let (_, num_ip6_resources) = self.client_cidr_resources.len();
        let r_idx = idx.index(num_ip6_resources);
        let network = self.client_cidr_resources.nth_ipv6(r_idx).unwrap();
        let prefix = network.netmask();
        if prefix == 128 {
            return true;
        }
        let k: u32 = 128 - prefix as u32;
        proof {
            crate::net::lemma_pow2_fits_usize(k as nat);
        }
        k < usize::BITS
    }

    /// Samples an IPv6 address from any of the IPv6 resources.
    pub fn sample_ipv6_cidr_resource_dst(&self, idx: &SampleIndex) -> (r: u128)
        requires
            self.wf(),
            self.num_ip6() > 0,
            self.v6_sample_fits(*idx),
        ensures
            r == self.sampled_v6(*idx),
            matched_resource(self@.resources, IpAddr::V6(r)) is Some,
    {
        proof {
            self.client_cidr_resources.lemma_counts();
        }
        let (_, num_ip6_resources) = self.client_cidr_resources.len();
        let r_idx = idx.index(num_ip6_resources);
        let network = self.client_cidr_resources.nth_ipv6(r_idx).unwrap();
        proof {
            assert(self@.resources.dom().contains(IpNet::V6(network)));
        }
        let num_hosts = network.subnets_len();
        if num_hosts == 0 {
            proof {
                crate::net::lemma_v6_net_fits(network);
                self.client_cidr_resources.lemma_longest_match_exists(IpAddr::V6(network.addr), IpNet::V6(network));
            }
            return network.network_address();
        }
        let addr_idx = idx.index(num_hosts);
        let addr = network.nth_subnet_address(addr_idx).unwrap();
        proof {
            self.client_cidr_resources.lemma_longest_match_exists(IpAddr::V6(addr), IpNet::V6(network));
        }
        addr
    }

    /// Whether a request to `dst` is valid: it does not ping the client itself, and no
    /// expected handshake has the same sequence number and identifier.
    pub fn is_valid_icmp_packet(&self, dst: &IpAddr, seq: &u16, identifier: &u16) -> (r: bool)
        ensures
            r == valid_echo(self@, *dst, *seq, *identifier),
    {
        let not_self_ping = match dst {
            IpAddr::V4(a) => *a != self.client.tunnel_ip4,
            IpAddr::V6(a) => *a != self.client.tunnel_ip6,
        };
        let mut not_existing = true;
        let mut i: usize = 0;
        while i < self.expected_icmp_handshakes.len()
            invariant
                i <= self@.handshakes.len(),
                not_existing == (forall|j: int| 0 <= j < i ==> !((#[trigger] self@.handshakes[j]).1 == *seq && self@.handshakes[j].2 == *identifier)),
            decreases self@.handshakes.len() - i,
        {
            let (_, existing_seq, existing_identifier) = self.expected_icmp_handshakes[i];
            not_existing = not_existing && !(existing_seq == *seq && existing_identifier == *identifier);
            i = i + 1;
        }
        not_self_ping && not_existing
    }

    /// Whether the reference accepts `t` in this state.
    pub fn preconditions(&self, t: &Transition) -> (r: bool)
        requires
            self.wf(),
            t matches Transition::SendICMPPacketToIp6Resource { r_idx, .. } ==> (self.num_ip6() > 0 ==> self.v6_sample_fits(*r_idx)),
        ensures
            r == self.preconditions_spec(*t),
    {
        proof {
            self.client_cidr_resources.lemma_counts();
        }
        match t {
            Transition::AddCidrResource(r) => {
                if r.address.is_ipv6() && self.gateway.ip6_socket.is_none() {
                    return false;
                }
                if r.address.is_ipv4() && self.gateway.ip4_socket.is_none() {
                    return false;
                }
                true
            },
            Transition::Tick { .. } => true,
            Transition::SendICMPPacketToRandomIp { dst, seq, identifier } => self.is_valid_icmp_packet(dst, seq, identifier),
            Transition::SendICMPPacketToIp4Resource { r_idx, seq, identifier } => {
                if self.client_cidr_resources.len().0 == 0 {
                    return false;
                }
                let dst = self.sample_ipv4_cidr_resource_dst(r_idx);
                self.is_valid_icmp_packet(&IpAddr::V4(dst), seq, identifier)
            },
            Transition::SendICMPPacketToIp6Resource { r_idx, seq, identifier } => {
                if self.client_cidr_resources.len().1 == 0 {
                    return false;
                }
                let dst = self.sample_ipv6_cidr_resource_dst(r_idx);
                self.is_valid_icmp_packet(&IpAddr::V6(dst), seq, identifier)
            },
            Transition::UpdateSystemDnsServers { .. } => true,
            Transition::UpdateUpstreamDnsServers { .. } => true,
        }
    }

    /// Applies `t` to the reference.
    pub fn apply(self, t: Transition) -> (r: ReferenceState)
        requires
            self.wf(),
            self.apply_requires(t),
        ensures
            r.wf(),
            r@ == self.next_view(t),
            r.relay == self.relay,
            !(t is AddCidrResource) ==> r.client_cidr_resources == self.client_cidr_resources,
    {
        let mut state = self;
        match t {
            Transition::AddCidrResource(r) => {
                state.client_cidr_resources.insert(r);
            },
            Transition::SendICMPPacketToRandomIp { dst, seq, identifier } => {
                state.on_icmp_packet(dst, seq, identifier);
            },
            Transition::SendICMPPacketToIp4Resource { r_idx, seq, identifier } => {
                let dst = state.sample_ipv4_cidr_resource_dst(&r_idx);
                state.on_icmp_packet(IpAddr::V4(dst), seq, identifier);
            },
            Transition::SendICMPPacketToIp6Resource { r_idx, seq, identifier } => {
                let dst = state.sample_ipv6_cidr_resource_dst(&r_idx);
                state.on_icmp_packet(IpAddr::V6(dst), seq, identifier);
            },
            Transition::Tick { millis } => {
                state.now = state.now + millis;
            },
            Transition::UpdateSystemDnsServers { servers } => {
                state.system_dns_resolvers = servers;
            },
            Transition::UpdateUpstreamDnsServers { servers } => {
                state.upstream_dns_resolvers = servers;
            },
        }
        state
    }

    /// The DNS servers the client is expected to use.
    pub fn expected_dns_servers(&self) -> (r: Vec<SocketAddr>)
        ensures
            r@ == expected_dns(self@),
    {
        let mut out: Vec<SocketAddr> = Vec::new();
        if self.upstream_dns_resolvers.len() > 0 {
            let mut i: usize = 0;
            while i < self.upstream_dns_resolvers.len()
                invariant
                    i <= self@.upstream_dns.len(),
                    out@ == self@.upstream_dns.take(i as int).map_values(|s: DnsServer| s.address),
                decreases self@.upstream_dns.len() - i,
            {
                out.push(self.upstream_dns_resolvers[i].address());
                assert(self@.upstream_dns.take(i + 1) =~= self@.upstream_dns.take(i as int).push(self@.upstream_dns[i as int]));
                assert(out@ =~= self@.upstream_dns.take(i + 1).map_values(|s: DnsServer| s.address));
                i = i + 1;
            }
            assert(self@.upstream_dns.take(self@.upstream_dns.len() as int) =~= self@.upstream_dns);
            return out;
        }
        let mut i: usize = 0;
        while i < self.system_dns_resolvers.len()
            invariant
                i <= self@.system_dns.len(),
                out@ == self@.system_dns.take(i as int).map_values(|ip: IpAddr| socket_addr_of(ip, 53)),
            decreases self@.system_dns.len() - i,
        {
            out.push(SocketAddr::new(self.system_dns_resolvers[i], 53));
            assert(self@.system_dns.take(i + 1) =~= self@.system_dns.take(i as int).push(self@.system_dns[i as int]));
            assert(out@ =~= self@.system_dns.take(i + 1).map_values(|ip: IpAddr| socket_addr_of(ip, 53)));
            i = i + 1;
        }
        assert(self@.system_dns.take(self@.system_dns.len() as int) =~= self@.system_dns);
        out
    }

    /// The transitions that can follow this state, each kind with its weight.
    pub fn transition_weights(&self) -> (r: Vec<(u32, TransitionKind)>)
        requires
            self.wf(),
        ensures
            r@ == transition_weights_spec(self.num_ip4(), self.num_ip6()),
    {
        let (num_ip4_resources, num_ip6_resources) = self.client_cidr_resources.len();
        let mut strategies: Vec<(u32, TransitionKind)> = Vec::new();
        strategies.push((1, TransitionKind::AddCidrResource));
        strategies.push((1, TransitionKind::Tick));
        strategies.push((1, TransitionKind::UpdateSystemDnsServers));
        strategies.push((1, TransitionKind::UpdateUpstreamDnsServers));
        strategies.push((1, TransitionKind::IcmpToRandomIp));
        if num_ip4_resources > 0 {
            strategies.push((3, TransitionKind::IcmpToIp4Resource));
        }
        if num_ip6_resources > 0 {
            strategies.push((3, TransitionKind::IcmpToIp6Resource));
        }
        assert(strategies@ =~= transition_weights_spec(self.num_ip4(), self.num_ip6()));
        strategies
    }

    /// A copy of the reference: the same view, with each resource copied under its own
    /// network.
    pub fn duplicate(&self) -> (r: ReferenceState)
        requires
            self.wf(),
        ensures
            r.wf(),
            r@.now == self@.now,
            r@.client == self@.client,
            r@.gateway == self@.gateway,
            r@.system_dns == self@.system_dns,
            r@.upstream_dns == self@.upstream_dns,
            r@.connected == self@.connected,
            r@.handshakes == self@.handshakes,
            r@.resources.dom() == self@.resources.dom(),
            forall|k: IpNet| #[trigger] r@.resources.dom().contains(k) ==> crate::resource::same_resource(
                r@.resources[k],
                self@.resources[k],
            ),
            r.relay.id == self.relay.id,
            r.relay.state == self.relay.state,
            r.relay.ip_stack == self.relay.ip_stack,
            r.relay.allocations@ == self.relay.allocations@,
    {
        let system_dns = copy_vec(&self.system_dns_resolvers);
        let upstream_dns = copy_vec(&self.upstream_dns_resolvers);
        let handshakes = copy_deque(&self.expected_icmp_handshakes);
        ReferenceState {
            now: self.now,
            client: self.client,
            gateway: self.gateway,
            relay: self.relay.duplicate(),
            system_dns_resolvers: system_dns,
            upstream_dns_resolvers: upstream_dns,
            client_cidr_resources: self.client_cidr_resources.duplicate(),
            connected_resources: copy_id_set(&self.connected_resources),
            expected_icmp_handshakes: handshakes,
        }
    }

    /// Records an ICMP echo request to `dst`.
    pub fn on_icmp_packet(&mut self, dst: IpAddr, seq: u16, identifier: u16)
        requires
            old(self).wf(),
        ensures
            final(self).wf(),
            final(self)@ == echo_step(old(self)@, dst, seq, identifier),
            final(self).relay == old(self).relay,
            final(self).client_cidr_resources == old(self).client_cidr_resources,
    {
        let id = match self.client_cidr_resources.longest_match(dst) {
            None => {
                return;
            },
            Some((_, resource)) => resource.id,
        };
        if self.connected_resources.contains(&id) {
            self.expected_icmp_handshakes.push_back((dst, seq, identifier));
            return;
        }
        self.connected_resources.insert(id);
    }
}


/// The client has DNS servers to use as long as the portal or the system names any: the
/// upstream ones where the portal names some, otherwise port 53 of each system resolver.
pub proof fn lemma_expected_dns_nonempty(v: RefView)
    requires
        v.upstream_dns.len() > 0 || v.system_dns.len() > 0,
    ensures
        expected_dns(v).len() > 0,
        v.upstream_dns.len() == 0 ==> forall|i: int|
            0 <= i < expected_dns(v).len() ==> (#[trigger] expected_dns(v)[i]).port_spec() == 53
                && expected_dns(v)[i].ip_spec() == v.system_dns[i],
{
}

/// Every expected handshake goes to an address that some resource holds.
pub open spec fn handshakes_hit_resources(v: RefView) -> bool {
    forall|i: int| 0 <= i < v.handshakes.len() ==> held_by_resource(v.resources, (#[trigger] v.handshakes[i]).0)
}

/// Some network of `m` holds `ip`.
pub open spec fn held_by_resource(m: Map<IpNet, ResourceCidr>, ip: IpAddr) -> bool {
    exists|k: IpNet| #[trigger] m.dom().contains(k) && k.contains_spec(ip)
}

/// No two expected handshakes have both the same sequence number and the same
/// identifier.
pub open spec fn handshake_ids_distinct(v: RefView) -> bool {
    forall|i: int, j: int|
        0 <= i < j < v.handshakes.len() ==> !((#[trigger] v.handshakes[i]).1 == (#[trigger] v.handshakes[j]).1
            && v.handshakes[i].2 == v.handshakes[j].2)
}

/// The first request to an address of a resource connects to that resource and is not
/// expected to be answered; the next request to it is expected to complete its handshake.
pub proof fn lemma_first_request_connects(v: RefView, dst: IpAddr, seq1: u16, id1: u16, seq2: u16, id2: u16)
    requires
        matched_resource(v.resources, dst) matches Some(r) && !v.connected.contains(r.id),
    ensures
        echo_step(v, dst, seq1, id1).handshakes == v.handshakes,
        echo_step(v, dst, seq1, id1).connected == v.connected.insert(matched_resource(v.resources, dst)->0.id),
        echo_step(echo_step(v, dst, seq1, id1), dst, seq2, id2).handshakes == v.handshakes.push((dst, seq2, id2)),
{
}

/// A request to an address that no resource holds changes nothing.
pub proof fn lemma_request_without_resource(v: RefView, dst: IpAddr, seq: u16, id: u16)
    requires
        forall|k: IpNet| #[trigger] v.resources.dom().contains(k) ==> !k.contains_spec(dst),
    ensures
        echo_step(v, dst, seq, id) == v,
{
    if exists|n: IpNet| crate::table::is_longest_match(v.resources, dst, n) {
        let n = choose|n: IpNet| crate::table::is_longest_match(v.resources, dst, n);
        assert(v.resources.dom().contains(n));
    }
}

/// No transition forgets: the expected handshakes only grow at their end, by at most one;
/// the connected resources only grow, by at most one; the networks of the known resources
/// only grow, the clock does not go back, and the client and gateway stay as they are.
pub proof fn lemma_reference_grows(state: ReferenceState, t: Transition)
    requires
        state.wf(),
        state.apply_requires(t),
    ensures
        state@.handshakes.is_prefix_of(state.next_view(t).handshakes),
        state@.connected.subset_of(state.next_view(t).connected),
        state@.resources.dom().subset_of(state.next_view(t).resources.dom()),
        state@.now <= state.next_view(t).now,
        state.next_view(t).client == state@.client,
        state.next_view(t).gateway == state@.gateway,
        state.next_view(t).handshakes.len() <= state@.handshakes.len() + 1,
        forall|a: u128, b: u128|
            #![trigger state.next_view(t).connected.contains(a), state.next_view(t).connected.contains(b)]
            state.next_view(t).connected.contains(a) && state.next_view(t).connected.contains(b)
                && !state@.connected.contains(a) && !state@.connected.contains(b) ==> a == b,
{
    let v = state@;
    assert(v.handshakes.is_prefix_of(v.handshakes));
    match t {
        Transition::SendICMPPacketToRandomIp { dst, seq, identifier } => {
            assert(v.handshakes.is_prefix_of(v.handshakes.push((dst, seq, identifier))));
        },
        Transition::SendICMPPacketToIp4Resource { r_idx, seq, identifier } => {
            let dst = IpAddr::V4(state.sampled_v4(r_idx));
            assert(v.handshakes.is_prefix_of(v.handshakes.push((dst, seq, identifier))));
        },
        Transition::SendICMPPacketToIp6Resource { r_idx, seq, identifier } => {
            let dst = IpAddr::V6(state.sampled_v6(r_idx));
            assert(v.handshakes.is_prefix_of(v.handshakes.push((dst, seq, identifier))));
        },
        _ => {},
    }
}

proof fn lemma_echo_step_keeps_hits(v: RefView, dst: IpAddr, seq: u16, id: u16)
    requires
        handshakes_hit_resources(v),
    ensures
        handshakes_hit_resources(echo_step(v, dst, seq, id)),
{
    let w = echo_step(v, dst, seq, id);
    if let Some(r) = matched_resource(v.resources, dst) {
        if v.connected.contains(r.id) {
            let n = choose|n: IpNet| crate::table::is_longest_match(v.resources, dst, n);
            assert forall|i: int| 0 <= i < w.handshakes.len() implies held_by_resource(w.resources, (#[trigger] w.handshakes[i]).0) by {
                if i < v.handshakes.len() {
                    assert(w.handshakes[i] == v.handshakes[i]);
                } else {
                    assert(w.resources.dom().contains(n) && n.contains_spec(dst));
                }
            }
        }
    }
}

/// The reference only ever expects handshakes with addresses that its resources hold:
/// this holds of a fresh reference and every transition keeps it.
pub proof fn lemma_handshakes_hit_resources(state: ReferenceState, t: Transition)
    requires
        state.wf(),
        state.apply_requires(t),
        handshakes_hit_resources(state@),
    ensures
        handshakes_hit_resources(state.next_view(t)),
{
    let v = state@;
    match t {
        Transition::AddCidrResource(r) => {
            let w = state.next_view(t);
            assert forall|i: int| 0 <= i < w.handshakes.len() implies held_by_resource(w.resources, (#[trigger] w.handshakes[i]).0) by {
                assert(held_by_resource(v.resources, v.handshakes[i].0));
                let k = choose|k: IpNet| #[trigger] v.resources.dom().contains(k) && k.contains_spec(v.handshakes[i].0);
                assert(w.resources.dom().contains(k));
            }
        },
        Transition::SendICMPPacketToRandomIp { dst, seq, identifier } => {
            lemma_echo_step_keeps_hits(v, dst, seq, identifier);
        },
        Transition::SendICMPPacketToIp4Resource { r_idx, seq, identifier } => {
            lemma_echo_step_keeps_hits(v, IpAddr::V4(state.sampled_v4(r_idx)), seq, identifier);
        },
        Transition::SendICMPPacketToIp6Resource { r_idx, seq, identifier } => {
            lemma_echo_step_keeps_hits(v, IpAddr::V6(state.sampled_v6(r_idx)), seq, identifier);
        },
        _ => {},
    }
}

proof fn lemma_echo_step_keeps_distinct(v: RefView, dst: IpAddr, seq: u16, id: u16)
    requires
        handshake_ids_distinct(v),
        valid_echo(v, dst, seq, id),
    ensures
        handshake_ids_distinct(echo_step(v, dst, seq, id)),
{
    let w = echo_step(v, dst, seq, id);
    assert forall|i: int, j: int| 0 <= i < j < w.handshakes.len() implies !((#[trigger] w.handshakes[i]).1
        == (#[trigger] w.handshakes[j]).1 && w.handshakes[i].2 == w.handshakes[j].2) by {
        if j < v.handshakes.len() {
            assert(w.handshakes[i] == v.handshakes[i] && w.handshakes[j] == v.handshakes[j]);
        } else {
            assert(w.handshakes[i] == v.handshakes[i]);
            assert(!(v.handshakes[i].1 == seq && v.handshakes[i].2 == id));
        }
    }
}

/// A transition that the reference accepts never expects a second handshake with the
/// sequence number and identifier of one already expected, so each pair names one
/// handshake.
pub proof fn lemma_accepted_handshakes_distinct(state: ReferenceState, t: Transition)
    requires
        state.wf(),
        state.apply_requires(t),
        state.preconditions_spec(t),
        handshake_ids_distinct(state@),
    ensures
        handshake_ids_distinct(state.next_view(t)),
{
    let v = state@;
    match t {
        Transition::SendICMPPacketToRandomIp { dst, seq, identifier } => {
            lemma_echo_step_keeps_distinct(v, dst, seq, identifier);
        },
        Transition::SendICMPPacketToIp4Resource { r_idx, seq, identifier } => {
            lemma_echo_step_keeps_distinct(v, IpAddr::V4(state.sampled_v4(r_idx)), seq, identifier);
        },
        Transition::SendICMPPacketToIp6Resource { r_idx, seq, identifier } => {
            lemma_echo_step_keeps_distinct(v, IpAddr::V6(state.sampled_v6(r_idx)), seq, identifier);
        },
        _ => {},
    }
}


/// Where the portal names at least one upstream DNS server, the client is expected to use
/// exactly the upstream servers' addresses, in order, whatever the system resolvers are;
/// where it names none, it is expected to use port 53 of each system resolver, in order.
pub proof fn lemma_expected_dns_servers(v: RefView)
    ensures
        v.upstream_dns.len() > 0 ==> expected_dns(v).len() == v.upstream_dns.len() && forall|i: int|
            0 <= i < v.upstream_dns.len() ==> #[trigger] expected_dns(v)[i] == v.upstream_dns[i].address,
        v.upstream_dns.len() == 0 ==> expected_dns(v).len() == v.system_dns.len() && forall|i: int|
            0 <= i < v.system_dns.len() ==> (#[trigger] expected_dns(v)[i]).ip_spec() == v.system_dns[i]
                && expected_dns(v)[i].port_spec() == 53,
{
    if v.upstream_dns.len() == 0 {
        assert forall|i: int| 0 <= i < v.system_dns.len() implies (#[trigger] expected_dns(v)[i]).ip_spec()
            == v.system_dns[i] && expected_dns(v)[i].port_spec() == 53 by {
            match v.system_dns[i] {
                IpAddr::V4(_) => {},
                IpAddr::V6(_) => {},
            }
        }
    }
}

/// A resource is accepted exactly when the gateway has a socket of its network's address
/// family: an IPv4 resource needs the gateway's IPv4 socket, an IPv6 resource its IPv6
/// socket, and the other socket does not matter.
pub proof fn lemma_resource_needs_gateway_family(state: ReferenceState, r: ResourceCidr)
    ensures
        state.preconditions_spec(Transition::AddCidrResource(r)) <==> (match r.address {
            IpNet::V4(_) => state.gateway.ip4_socket is Some,
            IpNet::V6(_) => state.gateway.ip6_socket is Some,
        }),
{
}

/// The IPv4 address an index gives lies in the IPv4 network at the index's position among
/// the IPv4 networks of the table's walk: the host at the index's position among that
/// network's hosts, or the network address where it has none.
pub proof fn lemma_sampled_v4_in_picked_network(state: ReferenceState, idx: SampleIndex)
    requires
        state.wf(),
        state.num_ip4() > 0,
    ensures
        ({
            let pos = sample_position(idx.raw, state.num_ip4() as int);
            let k = state.client_cidr_resources.order()[pos];
            &&& 0 <= pos < state.num_ip4()
            &&& k is V4
            &&& state@.resources.dom().contains(k)
            &&& k->V4_0.contains_spec(state.sampled_v4(idx))
            &&& k->V4_0.host_count() > 0 ==> state.sampled_v4(idx) == k->V4_0.addr + 1 + sample_position(
                idx.raw,
                k->V4_0.host_count() as int,
            )
            &&& k->V4_0.host_count() == 0 ==> state.sampled_v4(idx) == k->V4_0.addr
        }),
{
    let t = state.client_cidr_resources;
    t.lemma_counts();
    let n = state.num_ip4() as int;
    let pos = sample_position(idx.raw, n);
    lemma_sample_position_in_range(idx.raw, n);
    let k = t.order()[pos];
    assert(t@.dom().contains(k));
    let net = k->V4_0;
    assert(net.wf());
    crate::net::lemma_v4_net_fits(net);
    if net.host_count() > 0 {
        lemma_sample_position_in_range(idx.raw, net.host_count() as int);
    }
}

/// Every IPv4 resource can be sampled: for each IPv4 network the client knows, some index
/// gives an address inside it.
pub proof fn lemma_every_ipv4_resource_sampled(state: ReferenceState, net: crate::net::Ipv4Net)
    requires
        state.wf(),
        state@.resources.dom().contains(IpNet::V4(net)),
        state.num_ip4() <= usize::MAX,
    ensures
        exists|idx: SampleIndex| net.contains_spec(#[trigger] state.sampled_v4(idx)),
{
    let t = state.client_cidr_resources;
    t.lemma_counts();
    let o = t.order();
    assert(o.contains(IpNet::V4(net)));
    let j = choose|j: int| 0 <= j < o.len() && o[j] == IpNet::V4(net);
    let n = state.num_ip4() as int;
    assert(j < n);
    lemma_sample_position_onto(n, j);
    let raw = choose|raw: usize| #[trigger] sample_position(raw, n) == j;
    let idx = SampleIndex { raw };
    lemma_sampled_v4_in_picked_network(state, idx);
    assert(net.contains_spec(state.sampled_v4(idx)));
}

/// The IPv6 address an index gives lies in the IPv6 network at the index's position among
/// the IPv6 networks of the table's walk: the address at the index's position in that
/// network, or its network address where it is a single address.
pub proof fn lemma_sampled_v6_in_picked_network(state: ReferenceState, idx: SampleIndex)
    requires
        state.wf(),
        state.num_ip6() > 0,
    ensures
        ({
            let pos = sample_position(idx.raw, state.num_ip6() as int);
            let k = state.client_cidr_resources.order()[state.num_ip4() + pos];
            &&& 0 <= pos < state.num_ip6()
            &&& k is V6
            &&& state@.resources.dom().contains(k)
            &&& k->V6_0.contains_spec(state.sampled_v6(idx))
            &&& k->V6_0.subnet_count() > 0 ==> state.sampled_v6(idx) == k->V6_0.addr + sample_position(
                idx.raw,
                k->V6_0.subnet_count() as int,
            )
            &&& k->V6_0.subnet_count() == 0 ==> state.sampled_v6(idx) == k->V6_0.addr
        }),
{
    let t = state.client_cidr_resources;
    t.lemma_counts();
    let n = state.num_ip6() as int;
    let pos = sample_position(idx.raw, n);
    lemma_sample_position_in_range(idx.raw, n);
    let k = t.order()[state.num_ip4() + pos];
    assert(t@.dom().contains(k));
    let net = k->V6_0;
    assert(net.wf());
    crate::net::lemma_v6_net_fits(net);
    if net.subnet_count() > 0 {
        lemma_sample_position_in_range(idx.raw, net.subnet_count() as int);
    }
}

/// Every IPv6 resource can be sampled: for each IPv6 network the client knows, some index
/// gives an address inside it.
pub proof fn lemma_every_ipv6_resource_sampled(state: ReferenceState, net: crate::net::Ipv6Net)
    requires
        state.wf(),
        state@.resources.dom().contains(IpNet::V6(net)),
        state.num_ip6() <= usize::MAX,
    ensures
        exists|idx: SampleIndex| net.contains_spec(#[trigger] state.sampled_v6(idx)),
{
    let t = state.client_cidr_resources;
    t.lemma_counts();
    let o = t.order();
    assert(o.contains(IpNet::V6(net)));
    let i = choose|i: int| 0 <= i < o.len() && o[i] == IpNet::V6(net);
    let n4 = state.num_ip4() as int;
    let n = state.num_ip6() as int;
    let j = i - n4;
    assert(0 <= j < n);
    lemma_sample_position_onto(n, j);
    let raw = choose|raw: usize| #[trigger] sample_position(raw, n) == j;
    let idx = SampleIndex { raw };
    lemma_sampled_v6_in_picked_network(state, idx);
    assert(net.contains_spec(state.sampled_v6(idx)));
}

} // verus!
