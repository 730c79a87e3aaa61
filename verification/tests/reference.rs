use tunnel_sim::net::{IpAddr, IpNet, Ipv4Net, Ipv6Net, SocketAddr};
use tunnel_sim::node::{PrivateKey, SimNode};
use tunnel_sim::reference::{DnsServer, ReferenceState, Transition, TransitionKind};
use tunnel_sim::relay::IpStack;
use tunnel_sim::resource::{ResourceCidr, Site};
use tunnel_sim::sample::SampleIndex;
use tunnel_sim::setup::{node_prototype, relay_prototype, upstream_dns_server};

fn v4(a: u8, b: u8, c: u8, d: u8) -> u32 {
    u32::from_be_bytes([a, b, c, d])
}

fn node(id: u128, stack: IpStack, tunnel4: u32) -> SimNode<PrivateKey> {
    node_prototype(id, [id as u8; 32], stack, 1000, 2000, tunnel4, 0xfd00 << 112 | id)
}

fn state_with(gateway_stack: IpStack) -> ReferenceState {
    let client = node(1, IpStack::Dual { ip4: v4(1, 1, 1, 1), ip6: 0x11 }, v4(100, 64, 0, 1));
    let gateway = node(2, gateway_stack, v4(100, 64, 0, 2));
    let relay = relay_prototype(42, IpStack::Dual { ip4: v4(3, 3, 3, 3), ip6: 0x33 }, 3);
    ReferenceState::new(0, client, gateway, relay, vec![IpAddr::V4(v4(8, 8, 8, 8))], vec![])
}

fn state() -> ReferenceState {
    state_with(IpStack::Dual { ip4: v4(2, 2, 2, 2), ip6: 0x22 })
}

fn resource(id: u128, address: IpNet) -> ResourceCidr {
    ResourceCidr { id, address, name: format!("r{id}"), sites: vec![Site { id: 9, name: "site".to_string() }] }
}

fn ping(dst: IpAddr, seq: u16, identifier: u16) -> Transition {
    Transition::SendICMPPacketToRandomIp { dst, seq, identifier }
}

fn net4(addr: u32, prefix: u8) -> IpNet {
    IpNet::V4(Ipv4Net::new(addr, prefix).unwrap())
}

#[test]
fn first_packet_connects_second_is_expected() {
    let s = state();
    let s = s.apply(Transition::AddCidrResource(resource(5, net4(v4(10, 0, 0, 0), 24))));
    let dst = IpAddr::V4(v4(10, 0, 0, 7));
    let s = s.apply(ping(dst, 1, 1));
    assert!(s.connected_resources.contains(&5));
    assert!(s.expected_icmp_handshakes.is_empty());
    let s = s.apply(ping(dst, 2, 2));
    assert_eq!(s.expected_icmp_handshakes.len(), 1);
    assert_eq!(s.expected_icmp_handshakes[0], (dst, 2, 2));
}

#[test]
fn packet_without_resource_changes_nothing() {
    let s = state();
    let s = s.apply(ping(IpAddr::V4(v4(10, 0, 0, 7)), 1, 1));
    assert!(s.connected_resources.is_empty());
    assert!(s.expected_icmp_handshakes.is_empty());
}

#[test]
fn cidr_resource_needs_gateway_socket_of_its_family() {
    let s = state_with(IpStack::Ip4(v4(2, 2, 2, 2)));
    let v6 = Transition::AddCidrResource(resource(1, IpNet::V6(Ipv6Net::new(0xfd00 << 112, 120).unwrap())));
    let v4t = Transition::AddCidrResource(resource(2, net4(v4(10, 0, 0, 0), 24)));
    assert!(!s.preconditions(&v6));
    assert!(s.preconditions(&v4t));
    let s = state_with(IpStack::Ip6(0x22));
    assert!(s.preconditions(&v6));
    assert!(!s.preconditions(&v4t));
}

#[test]
fn icmp_packet_must_not_ping_client_or_repeat_a_handshake() {
    let s = state();
    assert!(!s.is_valid_icmp_packet(&IpAddr::V4(v4(100, 64, 0, 1)), &1, &1));
    assert!(s.is_valid_icmp_packet(&IpAddr::V4(v4(100, 64, 0, 9)), &1, &1));
    let s = s.apply(Transition::AddCidrResource(resource(5, net4(v4(10, 0, 0, 0), 24))));
    let dst = IpAddr::V4(v4(10, 0, 0, 7));
    let s = s.apply(ping(dst, 1, 1)).apply(ping(dst, 3, 4));
    // Only a request with both the sequence number and the identifier of an expected
    // handshake is refused.
    assert!(!s.is_valid_icmp_packet(&dst, &3, &4));
    assert!(s.is_valid_icmp_packet(&dst, &3, &9));
    assert!(s.is_valid_icmp_packet(&dst, &9, &4));
    assert!(!s.preconditions(&ping(dst, 3, 4)));
    assert!(s.preconditions(&ping(dst, 3, 9)));
    assert!(!s.preconditions(&Transition::SendICMPPacketToIp4Resource { r_idx: SampleIndex::new(0), seq: 3, identifier: 4 }));
    assert!(s.preconditions(&Transition::SendICMPPacketToIp4Resource { r_idx: SampleIndex::new(0), seq: 5, identifier: 9 }));
    assert!(!s.preconditions(&Transition::SendICMPPacketToIp6Resource { r_idx: SampleIndex::new(0), seq: 5, identifier: 9 }));
}

#[test]
fn dns_servers_prefer_upstream() {
    let s = state();
    assert_eq!(s.expected_dns_servers(), vec![SocketAddr::new(IpAddr::V4(v4(8, 8, 8, 8)), 53)]);
    let upstream = vec![DnsServer::from_ip_port(IpAddr::V4(v4(1, 0, 0, 1)), 5353), upstream_dns_server(IpAddr::V6(7))];
    let s = s.apply(Transition::UpdateUpstreamDnsServers { servers: upstream });
    assert_eq!(
        s.expected_dns_servers(),
        vec![SocketAddr::new(IpAddr::V4(v4(1, 0, 0, 1)), 5353), SocketAddr::new(IpAddr::V6(7), 53)]
    );
    let s = s.apply(Transition::UpdateSystemDnsServers { servers: vec![IpAddr::V4(1)] });
    assert_eq!(s.expected_dns_servers().len(), 2);
    let s = s.apply(Transition::UpdateUpstreamDnsServers { servers: vec![] });
    assert_eq!(s.expected_dns_servers(), vec![SocketAddr::new(IpAddr::V4(1), 53)]);
}

#[test]
fn tick_advances_the_clock() {
    let s = state().apply(Transition::Tick { millis: 250 }).apply(Transition::Tick { millis: 1000 });
    assert_eq!(s.now, 1250);
}

#[test]
fn transition_weights_follow_known_resources() {
    let s = state();
    let w = s.transition_weights();
    assert_eq!(w.len(), 5);
    assert!(w.iter().all(|(weight, _)| *weight == 1));
    let s = s.apply(Transition::AddCidrResource(resource(1, net4(v4(10, 0, 0, 0), 24))));
    let w = s.transition_weights();
    assert_eq!(w.len(), 6);
    assert_eq!(w[5], (3, TransitionKind::IcmpToIp4Resource));
    let s = s.apply(Transition::AddCidrResource(resource(2, IpNet::V6(Ipv6Net::new(0xfd00 << 112, 120).unwrap()))));
    let w = s.transition_weights();
    assert_eq!(w[6], (3, TransitionKind::IcmpToIp6Resource));
}

#[test]
fn sampled_ipv4_destination_is_a_host_of_a_resource() {
    let s = state().apply(Transition::AddCidrResource(resource(1, net4(v4(10, 0, 0, 0), 24))));
    assert_eq!(s.sample_ipv4_cidr_resource_dst(&SampleIndex::new(0)), v4(10, 0, 0, 1));
    assert_eq!(s.sample_ipv4_cidr_resource_dst(&SampleIndex::new(usize::MAX)), v4(10, 0, 0, 254));
    let s = state().apply(Transition::AddCidrResource(resource(1, net4(v4(10, 0, 0, 9), 32))));
    assert_eq!(s.sample_ipv4_cidr_resource_dst(&SampleIndex::new(usize::MAX)), v4(10, 0, 0, 9));
}

#[test]
fn sampled_ipv6_destination_is_an_address_of_a_resource() {
    let base: u128 = 0xfd00 << 112;
    let s = state().apply(Transition::AddCidrResource(resource(1, IpNet::V6(Ipv6Net::new(base, 120).unwrap()))));
    let idx = SampleIndex::new(usize::MAX);
    assert!(s.can_sample_ipv6(&idx));
    assert_eq!(s.sample_ipv6_cidr_resource_dst(&idx), base + 255);
    assert_eq!(s.sample_ipv6_cidr_resource_dst(&SampleIndex::new(0)), base);
    let s = state().apply(Transition::AddCidrResource(resource(1, IpNet::V6(Ipv6Net::new(base, 64).unwrap()))));
    assert!(!s.can_sample_ipv6(&SampleIndex::new(0)));
}

#[test]
fn sending_to_a_sampled_resource_connects_it() {
    let s = state().apply(Transition::AddCidrResource(resource(1, net4(v4(10, 0, 0, 0), 24))));
    let t = Transition::SendICMPPacketToIp4Resource { r_idx: SampleIndex::new(7), seq: 1, identifier: 1 };
    assert!(s.preconditions(&t));
    let s = s.apply(t);
    assert!(s.connected_resources.contains(&1));
    let s = s.apply(Transition::SendICMPPacketToIp4Resource { r_idx: SampleIndex::new(7), seq: 2, identifier: 2 });
    assert_eq!(s.expected_icmp_handshakes.len(), 1);
    assert_eq!(s.expected_icmp_handshakes[0].0, IpAddr::V4(v4(10, 0, 0, 1)));
}

#[test]
fn duplicate_copies_the_reference() {
    let s = state().apply(Transition::AddCidrResource(resource(1, net4(v4(10, 0, 0, 0), 24))));
    let dst = IpAddr::V4(v4(10, 0, 0, 5));
    let s = s.apply(ping(dst, 1, 1)).apply(ping(dst, 2, 2));
    let c = s.duplicate();
    assert_eq!(c.now, s.now);
    assert_eq!(c.expected_icmp_handshakes, s.expected_icmp_handshakes);
    assert_eq!(c.connected_resources, s.connected_resources);
    assert_eq!(c.client_cidr_resources.len(), (1, 0));
    assert_eq!(c.system_dns_resolvers, s.system_dns_resolvers);
    assert_eq!(c.relay.state, 42);
}

#[test]
fn accepted_transitions_keep_the_reference_invariants() {
    let transitions = vec![
        Transition::AddCidrResource(resource(1, net4(v4(10, 0, 0, 0), 24))),
        ping(IpAddr::V4(v4(10, 0, 0, 3)), 1, 1),
        ping(IpAddr::V4(v4(10, 0, 0, 3)), 1, 1),
        ping(IpAddr::V4(v4(10, 0, 0, 3)), 2, 1),
        ping(IpAddr::V4(v4(11, 0, 0, 3)), 3, 3),
        Transition::AddCidrResource(resource(2, net4(v4(10, 0, 0, 0), 28))),
        ping(IpAddr::V4(v4(10, 0, 0, 3)), 4, 4),
        ping(IpAddr::V4(v4(10, 0, 0, 3)), 5, 5),
        ping(IpAddr::V4(v4(10, 0, 0, 3)), 5, 5),
        Transition::Tick { millis: 3 },
    ];
    let mut s = state();
    let mut previous: Vec<(IpAddr, u16, u16)> = vec![];
    let mut previous_connected: Vec<u128> = vec![];
    for t in transitions {
        if !s.preconditions(&t) {
            continue;
        }
        s = s.apply(t);
        let now: Vec<(IpAddr, u16, u16)> = s.expected_icmp_handshakes.iter().copied().collect();
        assert!(now.starts_with(&previous));
        assert!(now.len() <= previous.len() + 1);
        let connected: Vec<u128> = s.connected_resources.iter().copied().collect();
        assert!(previous_connected.iter().all(|id| s.connected_resources.contains(id)));
        assert!(connected.len() <= previous_connected.len() + 1);
        previous_connected = connected;
        for (i, a) in now.iter().enumerate() {
            assert!(s.client_cidr_resources.longest_match(a.0).is_some());
            for b in &now[i + 1..] {
                assert!(!(a.1 == b.1 && a.2 == b.2));
            }
        }
        previous = now;
    }
    // The first (1, 1) connected resource 1, so the second (1, 1) and (2, 1) are
    // expected; (4, 4) connected the more specific resource 2 and (5, 5) is expected.
    assert_eq!(previous.len(), 3);
    assert_eq!(s.connected_resources.len(), 2);
    assert_eq!(s.now, 3);
}
