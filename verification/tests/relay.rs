use tunnel_sim::net::{IpAddr, SocketAddr, SocketAddrV4, SocketAddrV6};
use tunnel_sim::relay::{
    AddressFamily, Allocations, AllocationPort, IpStack, RelayForward, RelayIngress, RelaySocket, SimRelay,
    encode_channel_data,
};
use tunnel_sim::setup::relay_prototype;

fn relay() -> SimRelay<u64> {
    relay_prototype(1, IpStack::Dual { ip4: 0x0303_0303, ip6: 0x33 }, 9)
}

fn s4(ip: u32, port: u16) -> SocketAddr {
    SocketAddr::V4(SocketAddrV4 { ip, port })
}

#[test]
fn relay_takes_its_listening_sockets() {
    let r = relay();
    assert!(r.wants(s4(0x0303_0303, 3478)));
    assert!(r.wants(SocketAddr::new(IpAddr::V6(0x33), 3478)));
    assert!(!r.wants(s4(0x0303_0303, 50000)));
    assert!(!r.wants(s4(0x0404_0404, 3478)));
    let v6_with_scope = SocketAddr::V6(SocketAddrV6 { ip: 0x33, port: 3478, flowinfo: 0, scope_id: 1 });
    assert!(!r.wants(v6_with_scope));
}

#[test]
fn relay_takes_its_allocations_at_its_own_address() {
    let mut r = relay();
    r.allocations.insert(AddressFamily::V4, AllocationPort::new(50000));
    assert!(r.wants(s4(0x0303_0303, 50000)));
    assert!(!r.wants(s4(0x0404_0404, 50000)));
    assert!(!r.wants(SocketAddr::new(IpAddr::V6(0x33), 50000)));
    r.allocations.remove(AddressFamily::V4, AllocationPort::new(50000));
    assert!(!r.wants(s4(0x0303_0303, 50000)));
}

#[test]
fn allocations_are_a_set() {
    let mut a = Allocations::new();
    a.insert(AddressFamily::V6, AllocationPort::new(1));
    a.insert(AddressFamily::V6, AllocationPort::new(1));
    a.insert(AddressFamily::V4, AllocationPort::new(1));
    assert!(a.contains(AddressFamily::V6, AllocationPort::new(1)));
    a.remove(AddressFamily::V6, AllocationPort::new(1));
    assert!(!a.contains(AddressFamily::V6, AllocationPort::new(1)));
    assert!(a.contains(AddressFamily::V4, AllocationPort::new(1)));
    let b = a.duplicate();
    assert!(b.contains(AddressFamily::V4, AllocationPort::new(1)));
}

#[test]
fn relay_sends_from_its_address_of_the_family() {
    let r = relay_prototype(1, IpStack::Ip4(0x0303_0303), 9);
    assert_eq!(r.sending_socket_for(s4(1, 1), 3478), Some(s4(0x0303_0303, 3478)));
    assert_eq!(r.sending_socket_for(SocketAddr::new(IpAddr::V6(1), 1), 3478), None);
    assert_eq!(r.ip4(), Some(IpAddr::V4(0x0303_0303)));
    assert_eq!(r.ip6(), None);
    assert_eq!(r.matching_listen_socket(s4(7, 7)), Some(s4(0x0303_0303, 3478)));
}

#[test]
fn relay_packets_split_into_client_input_and_peer_traffic() {
    let r = relay();
    let sender = s4(1, 1000);
    assert_eq!(r.classify_packet(sender, s4(0x0303_0303, 3478)), RelayIngress::ClientInput { client: sender });
    assert_eq!(
        r.classify_packet(sender, s4(0x0303_0303, 50001)),
        RelayIngress::PeerTraffic { peer: sender, port: AllocationPort::new(50001) }
    );
}

#[test]
fn client_data_leaves_from_the_allocation() {
    let mut r = relay();
    r.allocations.insert(AddressFamily::V4, AllocationPort::new(50000));
    let peer = s4(0x0505_0505, 4000);
    match r.forward_client_data(&[0x40, 0, 0, 2, 7, 8], AllocationPort::new(50000), peer) {
        RelayForward::Send { transmit, sending_socket } => {
            assert_eq!(transmit.src, Some(s4(0x0303_0303, 50000)));
            assert_eq!(transmit.dst, peer);
            assert_eq!(transmit.payload, vec![7, 8]);
            assert_eq!(sending_socket, Some(s4(0x0303_0303, 50000)));
        }
        RelayForward::ToOwnAllocation { .. } => panic!("peer is not the relay"),
    }
}

#[test]
fn client_data_to_own_allocation_arrives_as_peer_traffic() {
    let mut r = relay();
    r.allocations.insert(AddressFamily::V4, AllocationPort::new(50000));
    r.allocations.insert(AddressFamily::V4, AllocationPort::new(50002));
    let peer = s4(0x0303_0303, 50002);
    match r.forward_client_data(&[0x40, 0, 0, 1, 9], AllocationPort::new(50000), peer) {
        RelayForward::ToOwnAllocation { payload, peer, port } => {
            assert_eq!(payload, vec![9]);
            assert_eq!(peer, s4(0x0303_0303, 50000));
            assert_eq!(port, AllocationPort::new(50002));
        }
        RelayForward::Send { .. } => panic!("relay takes its own allocation"),
    }
}

#[test]
fn peer_data_is_framed_as_channel_data() {
    let r = relay();
    let client = s4(0x0101_0101, 1234);
    let (t, sending) = r.forward_peer_data(&[1, 2, 3], client, 0x4001);
    assert_eq!(t.payload, vec![0x40, 0x01, 0, 3, 1, 2, 3]);
    assert_eq!(t.src, Some(s4(0x0303_0303, 3478)));
    assert_eq!(t.dst, client);
    assert_eq!(sending, Some(s4(0x0303_0303, 3478)));
    assert_eq!(encode_channel_data(0x7fff, &[0; 300])[..4], [0x7f, 0xff, 0x01, 0x2c]);
}

#[test]
fn relay_credentials_carry_expiry_and_name() {
    let r = relay();
    let c = r.explode("client", 1700000060, "secret".to_string());
    assert_eq!(c.id, 9);
    assert_eq!(c.username, "1700000060:client");
    assert_eq!(c.password, "secret");
    assert_eq!(c.realm, "firezone");
    assert_eq!(
        c.socket,
        RelaySocket::Dual {
            v4: SocketAddrV4 { ip: 0x0303_0303, port: 3478 },
            v6: SocketAddrV6 { ip: 0x33, port: 3478, flowinfo: 0, scope_id: 0 },
        }
    );
    assert_eq!(relay_prototype(0, IpStack::Ip6(5), 0).relay_socket(), RelaySocket::V6(SocketAddrV6 { ip: 5, port: 3478, flowinfo: 0, scope_id: 0 }));
}
