//! A simulated TURN relay: which packets it takes, and how it forwards what its server
//! relays.
use vstd::prelude::*;
use crate::net::{IpAddr, SocketAddr, SocketAddrV4, SocketAddrV6, socket_addr_of};
use crate::text::{decimal, relay_username};
use std::collections::HashSet;
use vstd::std_specs::iter::IteratorSpec;

verus! {

broadcast use vstd::std_specs::hash::group_hash_axioms;

/// The port a relay listens on for its clients.
pub const TURN_PORT: u16 = 3478;

/// The addresses a relay listens on.
#[derive(Clone, Copy, Debug, PartialEq, Eq, Structural)]
pub enum IpStack {
    Ip4(u32),
    Ip6(u128),
    Dual { ip4: u32, ip6: u128 },
}

impl IpStack {
    pub open spec fn v4(self) -> Option<u32> {
        match self {
            IpStack::Ip4(a) => Some(a),
            IpStack::Ip6(_) => None,
            IpStack::Dual { ip4, .. } => Some(ip4),
        }
    }

    pub open spec fn v6(self) -> Option<u128> {
        match self {
            IpStack::Ip4(_) => None,
            IpStack::Ip6(a) => Some(a),
            IpStack::Dual { ip6, .. } => Some(ip6),
        }
    }

    pub fn as_v4(&self) -> (r: Option<u32>)
        ensures
            r == self.v4(),
    {
        match self {
            IpStack::Ip4(a) => Some(*a),
            IpStack::Ip6(_) => None,
            IpStack::Dual { ip4, .. } => Some(*ip4),
        }
    }

    pub fn as_v6(&self) -> (r: Option<u128>)
        ensures
            r == self.v6(),
    {
        match self {
            IpStack::Ip4(_) => None,
            IpStack::Ip6(a) => Some(*a),
            IpStack::Dual { ip6, .. } => Some(*ip6),
        }
    }
}

#[derive(Clone, Copy, Debug, PartialEq, Eq, Structural)]
pub enum AddressFamily {
    V4,
    V6,
}

/// A port on which the relay holds an allocation.
#[derive(Clone, Copy, Debug, PartialEq, Eq, Structural)]
pub struct AllocationPort {
    pub value: u16,
}

impl AllocationPort {
    pub fn new(value: u16) -> (r: AllocationPort)
        ensures
            r.value == value,
    {
        AllocationPort { value }
    }

    pub fn value(&self) -> (r: u16)
        ensures
            r == self.value,
    {
        self.value
    }
}

/// The family of a socket address.
pub open spec fn family_of(s: SocketAddr) -> AddressFamily {
    match s {
        SocketAddr::V4(_) => AddressFamily::V4,
        SocketAddr::V6(_) => AddressFamily::V6,
    }
}

/// The key under which an allocation is kept: the family in the high half, the port in
/// the low half.
pub open spec fn allocation_key(family: AddressFamily, port: AllocationPort) -> u32 {
    ((if family is V4 { 0int } else { 1int }) * 65536 + port.value) as u32
}

fn allocation_key_exec(family: AddressFamily, port: AllocationPort) -> (r: u32)
    ensures
        r == allocation_key(family, port),
{
    let high: u32 = match family {
        AddressFamily::V4 => 0,
        AddressFamily::V6 => 1,
    };
    high * 65536 + port.value as u32
}

proof fn lemma_allocation_key_injective(a: (AddressFamily, AllocationPort), b: (AddressFamily, AllocationPort))
    ensures
        allocation_key(a.0, a.1) == allocation_key(b.0, b.1) ==> a == b,
{
}

/// The set of allocations a relay holds, by family and port.
pub struct Allocations {
    keys: HashSet<u32>,
}

impl View for Allocations {
    type V = Set<(AddressFamily, AllocationPort)>;

    closed spec fn view(&self) -> Set<(AddressFamily, AllocationPort)> {
        Set::new(|x: (AddressFamily, AllocationPort)| self.keys@.contains(allocation_key(x.0, x.1)))
    }
}

/// A copy of a set of keys.
fn copy_key_set(v: &HashSet<u32>) -> (r: HashSet<u32>)
    ensures
        r@ == v@,
{
    let ghost keys = vstd::std_specs::hash::spec_hash_keys_iter(v).remaining();
    let mut out: HashSet<u32> = HashSet::new();
    for k in it: v.iter()
        invariant
            it.seq() == keys,
            out@ == keys.take(it.index() as int).unref().to_set(),
    {
        let ghost before = keys.take(it.index() as int);
        out.insert(*k);
        assert(keys.take(it.index() + 1).unref() =~= before.unref().push(*k));
        assert(out@ =~= keys.take(it.index() + 1).unref().to_set()) by {
            before.unref().lemma_push_to_set_commute(*k);
        }
    }
    assert(keys.take(keys.len() as int) =~= keys);
    out
}

impl Allocations {
    pub fn new() -> (r: Allocations)
        ensures
            r@ == Set::<(AddressFamily, AllocationPort)>::empty(),
    {
        let r = Allocations { keys: HashSet::new() };
        assert(r@ =~= Set::<(AddressFamily, AllocationPort)>::empty());
        r
    }

    /// A copy of the set.
    pub fn duplicate(&self) -> (r: Allocations)
        ensures
            r@ == self@,
    {
        let r = Allocations { keys: copy_key_set(&self.keys) };
        assert(r@ =~= self@);
        r
    }

    pub fn contains(&self, family: AddressFamily, port: AllocationPort) -> (r: bool)
        ensures
            r == self@.contains((family, port)),
    {
        let key = allocation_key_exec(family, port);
        self.keys.contains(&key)
    }

    pub fn insert(&mut self, family: AddressFamily, port: AllocationPort)
        ensures
            final(self)@ == old(self)@.insert((family, port)),
    {
        let key = allocation_key_exec(family, port);
        self.keys.insert(key);
        assert forall|x: (AddressFamily, AllocationPort)| #[trigger] final(self)@.contains(x) <==> old(self)@.insert((family, port)).contains(x) by {
            lemma_allocation_key_injective(x, (family, port));
        }
        assert(final(self)@ =~= old(self)@.insert((family, port)));
    }

    pub fn remove(&mut self, family: AddressFamily, port: AllocationPort)
        ensures
            final(self)@ == old(self)@.remove((family, port)),
    {
        let key = allocation_key_exec(family, port);
        self.keys.remove(&key);
        assert forall|x: (AddressFamily, AllocationPort)| #[trigger] final(self)@.contains(x) <==> old(self)@.remove((family, port)).contains(x) by {
            lemma_allocation_key_injective(x, (family, port));
        }
        assert(final(self)@ =~= old(self)@.remove((family, port)));
    }
}

/// A packet on its way through the simulated network.
pub struct Transmit {
    pub src: Option<SocketAddr>,
    pub dst: SocketAddr,
    pub payload: Vec<u8>,
}

/// The sockets a relay is reached on, as its clients are told of them.
#[derive(Clone, Copy, Debug, PartialEq, Eq, Structural)]
pub enum RelaySocket {
    V4(SocketAddrV4),
    V6(SocketAddrV6),
    Dual { v4: SocketAddrV4, v6: SocketAddrV6 },
}

/// What a client or gateway is told of a relay: its id, its sockets and the credentials
/// to use with it.
pub struct RelayCredentials {
    pub id: u128,
    pub socket: RelaySocket,
    pub username: String,
    pub password: String,
    pub realm: String,
}

/// Where a packet that reaches the relay goes: to its server as client input when it
/// arrives on a listening socket, as traffic from a peer otherwise.
#[derive(Clone, Copy, Debug, PartialEq, Eq, Structural)]
pub enum RelayIngress {
    ClientInput { client: SocketAddr },
    PeerTraffic { peer: SocketAddr, port: AllocationPort },
}

/// What the relay does with data its server relays from a client to a peer.
pub enum RelayForward {
    /// The peer is one of the relay's own allocations: the data arrives there as peer
    /// traffic from `peer` on `port`.
    ToOwnAllocation { payload: Vec<u8>, peer: SocketAddr, port: AllocationPort },
    /// The data leaves the relay for the peer.
    Send { transmit: Transmit, sending_socket: Option<SocketAddr> },
}

/// A TURN channel-data message: the channel number and the payload length, two bytes
/// each with the high byte first, then the payload.
pub open spec fn channel_data(channel: u16, payload: Seq<u8>) -> Seq<u8> {
    seq![
        (channel / 256) as u8,
        (channel % 256) as u8,
        (payload.len() / 256) as u8,
        (payload.len() % 256) as u8,
    ] + payload
}

/// Frames `payload` as channel data for `channel`.
pub fn encode_channel_data(channel: u16, payload: &[u8]) -> (r: Vec<u8>)
    requires
        payload@.len() <= 0xffff,
    ensures
        r@ == channel_data(channel, payload@),
{
    let len: u16 = payload.len() as u16;
    let mut out: Vec<u8> = Vec::new();
    out.push((channel / 256) as u8);
    out.push((channel % 256) as u8);
    out.push((len / 256) as u8);
    out.push((len % 256) as u8);
    let ghost header = out@;
    let mut i: usize = 0;
    while i < payload.len()
        invariant
            i <= payload@.len(),
            out@ == header + payload@.take(i as int),
        decreases payload@.len() - i,
    {
        out.push(payload[i]);
        assert(payload@.take(i + 1) =~= payload@.take(i as int).push(payload@[i as int]));
        i = i + 1;
    }
    assert(payload@.take(payload@.len() as int) =~= payload@);
    assert(out@ =~= channel_data(channel, payload@));
    out
}

/// The bytes of `payload` from position `from` on.
fn tail_bytes(payload: &[u8], from: usize) -> (r: Vec<u8>)
    requires
        from <= payload@.len(),
    ensures
        r@ == payload@.skip(from as int),
{
    let mut out: Vec<u8> = Vec::new();
    let mut i: usize = from;
    while i < payload.len()
        invariant
            from <= i <= payload@.len(),
            out@ == payload@.subrange(from as int, i as int),
        decreases payload@.len() - i,
    {
        out.push(payload[i]);
        assert(payload@.subrange(from as int, i + 1) =~= payload@.subrange(from as int, i as int).push(payload@[i as int]));
        i = i + 1;
    }
    assert(payload@.subrange(from as int, payload@.len() as int) =~= payload@.skip(from as int));
    out
}

/// A simulated relay: its id, its server's state, the addresses it listens on and the
/// allocations its server holds.
pub struct SimRelay<S> {
    pub id: u128,
    pub state: S,
    pub ip_stack: IpStack,
    pub allocations: Allocations,
}

impl<S: Copy> SimRelay<S> {
    /// A copy of the relay.
    pub fn duplicate(&self) -> (r: SimRelay<S>)
        ensures
            r.id == self.id,
            r.state == self.state,
            r.ip_stack == self.ip_stack,
            r.allocations@ == self.allocations@,
    {
        SimRelay { id: self.id, state: self.state, ip_stack: self.ip_stack, allocations: self.allocations.duplicate() }
    }
}

impl<S> SimRelay<S> {
    /// The listening socket of the relay of the same family as `other`.
    pub open spec fn listen_socket_spec(&self, other: SocketAddr) -> Option<SocketAddr> {
        match other {
            SocketAddr::V4(_) => match self.ip_stack.v4() {
                Some(a) => Some(socket_addr_of(IpAddr::V4(a), TURN_PORT)),
                None => None,
            },
            SocketAddr::V6(_) => match self.ip_stack.v6() {
                Some(a) => Some(socket_addr_of(IpAddr::V6(a), TURN_PORT)),
                None => None,
            },
        }
    }

    /// The relay takes a packet sent to one of its listening sockets, or to a port on
    /// which it holds an allocation of the destination's family, at its own address.
    pub open spec fn wants_spec(&self, dst: SocketAddr) -> bool {
        let listen = self.listen_socket_spec(dst);
        let is_direct = listen == Some(dst);
        let is_allocation_port = self.allocations@.contains(
            (family_of(dst), AllocationPort { value: dst.port_spec() }),
        );
        let is_allocation_ip = listen matches Some(s) && s.ip_spec() == dst.ip_spec();
        is_direct || (is_allocation_port && is_allocation_ip)
    }

    /// The relay's address of the given family.
    pub open spec fn ip_of(&self, family: AddressFamily) -> Option<IpAddr> {
        match family {
            AddressFamily::V4 => match self.ip_stack.v4() {
                Some(a) => Some(IpAddr::V4(a)),
                None => None,
            },
            AddressFamily::V6 => match self.ip_stack.v6() {
                Some(a) => Some(IpAddr::V6(a)),
                None => None,
            },
        }
    }

    pub fn matching_listen_socket(&self, other: SocketAddr) -> (r: Option<SocketAddr>)
        ensures
            r == self.listen_socket_spec(other),
    {
        match other {
            SocketAddr::V4(_) => match self.ip_stack.as_v4() {
                Some(a) => Some(SocketAddr::new(IpAddr::V4(a), TURN_PORT)),
                None => None,
            },
            SocketAddr::V6(_) => match self.ip_stack.as_v6() {
                Some(a) => Some(SocketAddr::new(IpAddr::V6(a), TURN_PORT)),
                None => None,
            },
        }
    }

    pub fn wants(&self, dst: SocketAddr) -> (r: bool)
        ensures
            r == self.wants_spec(dst),
    {
        let listen = self.matching_listen_socket(dst);
        let is_direct = match listen {
            Some(s) => s == dst,
            None => false,
        };
        let family = match dst {
            SocketAddr::V4(_) => AddressFamily::V4,
            SocketAddr::V6(_) => AddressFamily::V6,
        };
        let is_allocation_port = self.allocations.contains(family, AllocationPort::new(dst.port()));
        let is_allocation_ip = match listen {
            Some(s) => s.ip() == dst.ip(),
            None => false,
        };
        is_direct || (is_allocation_port && is_allocation_ip)
    }

    /// The socket the relay sends from, on `port`, to reach `dst`.
    pub fn sending_socket_for(&self, dst: SocketAddr, port: u16) -> (r: Option<SocketAddr>)
        ensures
            r == (match self.ip_of(family_of(dst)) {
                Some(ip) => Some(socket_addr_of(ip, port)),
                None => None::<SocketAddr>,
            }),
    {
        match dst {
            SocketAddr::V4(_) => match self.ip_stack.as_v4() {
                Some(a) => Some(SocketAddr::V4(SocketAddrV4 { ip: a, port })),
                None => None,
            },
            SocketAddr::V6(_) => match self.ip_stack.as_v6() {
                Some(a) => Some(SocketAddr::V6(SocketAddrV6 { ip: a, port, flowinfo: 0, scope_id: 0 })),
                None => None,
            },
        }
    }

    pub fn ip4(&self) -> (r: Option<IpAddr>)
        ensures
            r == self.ip_of(AddressFamily::V4),
    {
        match self.ip_stack.as_v4() {
            Some(a) => Some(IpAddr::V4(a)),
            None => None,
        }
    }

    pub fn ip6(&self) -> (r: Option<IpAddr>)
        ensures
            r == self.ip_of(AddressFamily::V6),
    {
        match self.ip_stack.as_v6() {
            Some(a) => Some(IpAddr::V6(a)),
            None => None,
        }
    }

    /// The sockets the relay is reached on: its TURN port on each of its addresses.
    pub open spec fn relay_socket_spec(&self) -> RelaySocket {
        match self.ip_stack {
            IpStack::Ip4(a) => RelaySocket::V4(SocketAddrV4 { ip: a, port: TURN_PORT }),
            IpStack::Ip6(a) => RelaySocket::V6(
                SocketAddrV6 { ip: a, port: TURN_PORT, flowinfo: 0, scope_id: 0 },
            ),
            IpStack::Dual { ip4, ip6 } => RelaySocket::Dual {
                v4: SocketAddrV4 { ip: ip4, port: TURN_PORT },
                v6: SocketAddrV6 { ip: ip6, port: TURN_PORT, flowinfo: 0, scope_id: 0 },
            },
        }
    }

    pub fn relay_socket(&self) -> (r: RelaySocket)
        ensures
            r == self.relay_socket_spec(),
    {
        match self.ip_stack {
            IpStack::Ip4(a) => RelaySocket::V4(SocketAddrV4 { ip: a, port: TURN_PORT }),
            IpStack::Ip6(a) => RelaySocket::V6(SocketAddrV6 { ip: a, port: TURN_PORT, flowinfo: 0, scope_id: 0 }),
            IpStack::Dual { ip4, ip6 } => RelaySocket::Dual {
                v4: SocketAddrV4 { ip: ip4, port: TURN_PORT },
                v6: SocketAddrV6 { ip: ip6, port: TURN_PORT, flowinfo: 0, scope_id: 0 },
            },
        }
    }

    /// What a party named `name` is told of the relay: the relay's sockets, a user name
    /// made of the credentials' expiry and the party's name, the password issued for
    /// them, and the realm.
    pub fn explode(&self, name: &str, expiry_secs: u64, password: String) -> (r: RelayCredentials)
        ensures
            r.id == self.id,
            r.socket == self.relay_socket_spec(),
            r.username@ == decimal(expiry_secs as nat) + seq![':'] + name@,
            r.password == password,
            r.realm@ == "firezone"@,
    {
        let socket = self.relay_socket();
        let username = relay_username(expiry_secs, name);
        RelayCredentials { id: self.id, socket, username, password, realm: "firezone".to_owned() }
    }

    /// Where a packet from `sender` to `dst` goes inside the relay.
    pub fn classify_packet(&self, sender: SocketAddr, dst: SocketAddr) -> (r: RelayIngress)
        ensures
            r == (if self.listen_socket_spec(dst) == Some(dst) {
                RelayIngress::ClientInput { client: sender }
            } else {
                RelayIngress::PeerTraffic { peer: sender, port: AllocationPort { value: dst.port_spec() } }
            }),
    {
        let is_listen = match self.matching_listen_socket(dst) {
            Some(s) => s == dst,
            None => false,
        };
        if is_listen {
            RelayIngress::ClientInput { client: sender }
        } else {
            RelayIngress::PeerTraffic { peer: sender, port: AllocationPort::new(dst.port()) }
        }
    }

    /// Forwards channel data that the server relays from a client to `peer` out of the
    /// allocation on `port`: the data after the four-byte channel header leaves from that
    /// port at the relay's address of the peer's family, or, where the relay itself takes
    /// packets for the peer, arrives there as peer traffic.
    pub fn forward_client_data(&self, payload: &[u8], port: AllocationPort, peer: SocketAddr) -> (r: RelayForward)
        requires
            payload@.len() >= 4,
            self.allocations@.contains((family_of(peer), port)),
            self.ip_of(family_of(peer)) is Some,
        ensures
            ({
                let src = socket_addr_of(self.ip_of(family_of(peer))->0, port.value);
                let data = payload@.skip(4);
                if self.wants_spec(peer) {
                    r matches RelayForward::ToOwnAllocation { payload: p, peer: from, port: on } && p@
                        == data && from == src && on == AllocationPort { value: peer.port_spec() }
                } else {
                    r matches RelayForward::Send { transmit: t, sending_socket: s } && t.src == Some(src)
                        && t.dst == peer && t.payload@ == data && s == Some(src)
                }
            }),
    {
        let data = tail_bytes(payload, 4);
        let src_ip = match peer {
            SocketAddr::V4(_) => self.ip4(),
            SocketAddr::V6(_) => self.ip6(),
        };
        let src = SocketAddr::new(src_ip.unwrap(), port.value());
        if self.wants(peer) {
            RelayForward::ToOwnAllocation { payload: data, peer: src, port: AllocationPort::new(peer.port()) }
        } else {
            RelayForward::Send {
                transmit: Transmit { src: Some(src), dst: peer, payload: data },
                sending_socket: Some(src),
            }
        }
    }

    /// Sends data that the server relays from a peer to `client` on `channel`: framed as
    /// channel data, from the relay's listening socket of the client's family.
    pub fn forward_peer_data(&self, payload: &[u8], client: SocketAddr, channel: u16) -> (r: (Transmit, Option<SocketAddr>))
        requires
            payload@.len() <= 0xffff - 4,
            self.listen_socket_spec(client) is Some,
        ensures
            r.0.src == self.listen_socket_spec(client),
            r.0.dst == client,
            r.0.payload@ == channel_data(channel, payload@),
            r.1 == self.listen_socket_spec(client),
    {
        let sending_socket = self.matching_listen_socket(client);
        let framed = encode_channel_data(channel, payload);
        (Transmit { src: sending_socket, dst: client, payload: framed }, sending_socket)
    }
}

/// A relay takes every packet sent to one of its listening sockets, and hands exactly
/// those to its server as client input.
pub proof fn lemma_relay_listens<S>(relay: SimRelay<S>, dst: SocketAddr)
    ensures
        relay.listen_socket_spec(dst) == Some(dst) ==> relay.wants_spec(dst),
        relay.listen_socket_spec(dst) matches Some(s) ==> relay.wants_spec(s) && family_of(s) == family_of(dst),
{
    if let Some(s) = relay.listen_socket_spec(dst) {
        assert(relay.listen_socket_spec(s) == Some(s));
    }
}


/// A relay's address of a family is the address its IP stack has of that family: a
/// dual-stack relay has both, a single-stack relay only its own; so a packet to an IPv6
/// destination leaves a dual-stack relay from its IPv6 address, on the given port.
pub proof fn lemma_relay_address_of_family<R>(relay: SimRelay<R>, dst: SocketAddr, port: u16)
    ensures
        relay.ip_of(AddressFamily::V4) == (match relay.ip_stack {
            IpStack::Ip4(a) => Some(IpAddr::V4(a)),
            IpStack::Ip6(_) => None::<IpAddr>,
            IpStack::Dual { ip4, .. } => Some(IpAddr::V4(ip4)),
        }),
        relay.ip_of(AddressFamily::V6) == (match relay.ip_stack {
            IpStack::Ip4(_) => None::<IpAddr>,
            IpStack::Ip6(a) => Some(IpAddr::V6(a)),
            IpStack::Dual { ip6, .. } => Some(IpAddr::V6(ip6)),
        }),
        relay.ip_stack matches IpStack::Dual { ip4, ip6 } ==> relay.ip_of(family_of(dst)) == Some(
            match dst {
                SocketAddr::V4(_) => IpAddr::V4(ip4),
                SocketAddr::V6(_) => IpAddr::V6(ip6),
            },
        ),
{
}

} // verus!
