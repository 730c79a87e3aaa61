use tunnel_sim::net::{IpAddr, IpNet, Ipv4Net, Ipv6Net, SocketAddr, SocketAddrV4, SocketAddrV6};
use tunnel_sim::sample::SampleIndex;

fn v4(a: u8, b: u8, c: u8, d: u8) -> u32 {
    u32::from_be_bytes([a, b, c, d])
}

#[test]
fn ipv4_network_must_be_aligned() {
    assert!(Ipv4Net::new(v4(192, 168, 1, 0), 24).is_some());
    assert!(Ipv4Net::new(v4(192, 168, 1, 1), 24).is_none());
    assert!(Ipv4Net::new(v4(192, 168, 1, 1), 32).is_some());
    assert!(Ipv4Net::new(0, 33).is_none());
    assert!(Ipv4Net::new(0, 0).is_some());
}

#[test]
fn ipv4_hosts_exclude_network_and_broadcast() {
    let net = Ipv4Net::new(v4(192, 168, 1, 0), 24).unwrap();
    assert_eq!(net.hosts_len(), 254);
    assert_eq!(net.nth_host(0), Some(v4(192, 168, 1, 1)));
    assert_eq!(net.nth_host(253), Some(v4(192, 168, 1, 254)));
    assert_eq!(net.nth_host(254), None);
}

#[test]
fn ipv4_point_networks_have_no_hosts() {
    let n31 = Ipv4Net::new(v4(10, 0, 0, 0), 31).unwrap();
    let n32 = Ipv4Net::new(v4(10, 0, 0, 7), 32).unwrap();
    assert_eq!(n31.hosts_len(), 0);
    assert_eq!(n32.hosts_len(), 0);
    assert_eq!(n31.nth_host(0), None);
    let n30 = Ipv4Net::new(v4(10, 0, 0, 4), 30).unwrap();
    assert_eq!(n30.hosts_len(), 2);
    assert_eq!(n30.nth_host(1), Some(v4(10, 0, 0, 6)));
}

#[test]
fn ipv4_contains_is_the_network_range() {
    let net = Ipv4Net::new(v4(192, 168, 1, 0), 24).unwrap();
    assert!(net.contains(v4(192, 168, 1, 0)));
    assert!(net.contains(v4(192, 168, 1, 255)));
    assert!(!net.contains(v4(192, 168, 2, 0)));
    assert!(!net.contains(v4(192, 168, 0, 255)));
}

#[test]
fn ipv6_subnets_count_every_address() {
    let base: u128 = 0x2001_0db8_0000_0000_0000_0000_0000_0100;
    let net = Ipv6Net::new(base, 120).unwrap();
    assert_eq!(net.subnets_len(), 256);
    assert_eq!(net.nth_subnet_address(0), Some(base));
    assert_eq!(net.nth_subnet_address(5), Some(base + 5));
    assert_eq!(net.nth_subnet_address(256), None);
    let point = Ipv6Net::new(base, 128).unwrap();
    assert_eq!(point.subnets_len(), 0);
    assert!(Ipv6Net::new(base + 1, 120).is_none());
    assert!(net.contains(base + 255));
    assert!(!net.contains(base + 256));
}

#[test]
fn ip_network_contains_only_its_family() {
    let net = IpNet::V4(Ipv4Net::new(0, 0).unwrap());
    assert!(net.contains(IpAddr::V4(12345)));
    assert!(!net.contains(IpAddr::V6(12345)));
    assert!(net.is_ipv4());
    assert!(!net.is_ipv6());
}

#[test]
fn socket_addr_new_zeroes_v6_extras() {
    let s = SocketAddr::new(IpAddr::V6(7), 53);
    assert_eq!(s, SocketAddr::V6(SocketAddrV6 { ip: 7, port: 53, flowinfo: 0, scope_id: 0 }));
    assert_eq!(s.ip(), IpAddr::V6(7));
    assert_eq!(s.port(), 53);
    let t = SocketAddr::new(IpAddr::V4(9), 80);
    assert_eq!(t, SocketAddr::V4(SocketAddrV4 { ip: 9, port: 80 }));
    assert!(t.is_ipv4());
}

#[test]
fn sample_index_scales_to_the_size() {
    assert_eq!(SampleIndex::new(0).index(10), 0);
    assert_eq!(SampleIndex::new(usize::MAX).index(10), 9);
    assert_eq!(SampleIndex::new(usize::MAX / 2 + 1).index(4), 2);
    assert_eq!(SampleIndex::new(12345).index(1), 0);
}
