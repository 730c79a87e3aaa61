use tunnel_sim::net::{IpAddr, IpNet, Ipv4Net, Ipv6Net};
use tunnel_sim::portal::{SimPortal, map_client_resource_to_gateway_resource};
use tunnel_sim::resource::{ResourceCidr, Site};
use tunnel_sim::table::ResourceTable;

fn v4(a: u8, b: u8, c: u8, d: u8) -> u32 {
    u32::from_be_bytes([a, b, c, d])
}

fn net4(addr: u32, prefix: u8) -> IpNet {
    IpNet::V4(Ipv4Net::new(addr, prefix).unwrap())
}

fn net6(addr: u128, prefix: u8) -> IpNet {
    IpNet::V6(Ipv6Net::new(addr, prefix).unwrap())
}

fn resource(id: u128, address: IpNet, sites: &[u128]) -> ResourceCidr {
    ResourceCidr {
        id,
        address,
        name: format!("resource-{id}"),
        sites: sites.iter().map(|s| Site { id: *s, name: format!("site-{s}") }).collect(),
    }
}

#[test]
fn table_counts_each_family() {
    let mut table = ResourceTable::new();
    assert_eq!(table.len(), (0, 0));
    table.insert(resource(1, net4(v4(10, 0, 0, 0), 8), &[1]));
    table.insert(resource(2, net6(0x2001_0db8 << 96, 32), &[1]));
    table.insert(resource(3, net4(v4(192, 168, 0, 0), 16), &[1]));
    assert_eq!(table.len(), (2, 1));
    // Inserting the same network again replaces its resource.
    table.insert(resource(4, net4(v4(10, 0, 0, 0), 8), &[1]));
    assert_eq!(table.len(), (2, 1));
}

#[test]
fn longest_match_prefers_the_most_specific_network() {
    let mut table = ResourceTable::new();
    table.insert(resource(1, net4(v4(10, 0, 0, 0), 8), &[1]));
    table.insert(resource(2, net4(v4(10, 1, 0, 0), 16), &[1]));
    let (net, r) = table.longest_match(IpAddr::V4(v4(10, 1, 2, 3))).unwrap();
    assert_eq!(net, net4(v4(10, 1, 0, 0), 16));
    assert_eq!(r.id, 2);
    let (net, r) = table.longest_match(IpAddr::V4(v4(10, 2, 0, 1))).unwrap();
    assert_eq!(net, net4(v4(10, 0, 0, 0), 8));
    assert_eq!(r.id, 1);
    assert!(table.longest_match(IpAddr::V4(v4(11, 0, 0, 1))).is_none());
    assert!(table.longest_match(IpAddr::V6(1)).is_none());
}

#[test]
fn walk_lists_ipv4_networks_first() {
    let mut table = ResourceTable::new();
    table.insert(resource(1, net6(0x2001_0db8 << 96, 32), &[1]));
    table.insert(resource(2, net4(v4(10, 0, 0, 0), 8), &[1]));
    let entries = table.entries();
    assert_eq!(entries.len(), 2);
    assert!(entries[0].0.is_ipv4());
    assert!(entries[1].0.is_ipv6());
    assert_eq!(table.nth_ipv4(0), Some(Ipv4Net::new(v4(10, 0, 0, 0), 8).unwrap()));
    assert_eq!(table.nth_ipv4(1), None);
    assert_eq!(table.nth_ipv6(0), Some(Ipv6Net::new(0x2001_0db8 << 96, 32).unwrap()));
    assert_eq!(table.nth_ipv6(1), None);
}

#[test]
fn duplicate_keeps_every_resource() {
    let mut table = ResourceTable::new();
    table.insert(resource(1, net4(v4(10, 0, 0, 0), 8), &[5, 6]));
    table.insert(resource(2, net6(0x2001_0db8 << 96, 32), &[7]));
    let copy = table.duplicate();
    assert_eq!(copy.len(), (1, 1));
    let (_, r) = copy.longest_match(IpAddr::V4(v4(10, 9, 9, 9))).unwrap();
    assert_eq!(r.id, 1);
    assert_eq!(r.sites.len(), 2);
    assert_eq!(r.sites[1].id, 6);
    assert_eq!(r.name, "resource-1");
}

#[test]
fn portal_picks_first_site_of_the_resource() {
    let mut table = ResourceTable::new();
    table.insert(resource(1, net4(v4(10, 0, 0, 0), 8), &[]));
    table.insert(resource(2, net4(v4(192, 168, 0, 0), 16), &[40, 41]));
    let portal = SimPortal { client: 100, gateway: 200, relay: 300 };
    assert_eq!(portal.handle_connection_intent(2, &table), Some((200, 40)));
    // A resource without sites cannot be connected to.
    assert_eq!(portal.handle_connection_intent(1, &table), None);
    assert_eq!(portal.handle_connection_intent(3, &table), None);
}

#[test]
fn gateway_is_told_of_the_clients_resource() {
    let mut table = ResourceTable::new();
    table.insert(resource(7, net4(v4(172, 16, 0, 0), 12), &[1]));
    let g = map_client_resource_to_gateway_resource(&table, 7).unwrap();
    assert_eq!(g.id, 7);
    assert_eq!(g.address, net4(v4(172, 16, 0, 0), 12));
    assert_eq!(g.name, "resource-7");
    assert!(map_client_resource_to_gateway_resource(&table, 8).is_none());
}
