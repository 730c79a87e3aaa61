//! A simulated client or gateway: where it listens, and which addresses it has inside
//! the tunnel.
use vstd::prelude::*;
use crate::net::{IpAddr, SocketAddr, SocketAddrV4, SocketAddrV6};
use crate::text::hex_string;

verus! {

/// A node's private key.
#[derive(Clone, Copy, Debug)]
pub struct PrivateKey {
    pub bytes: [u8; 32],
}

/// `hex::encode`: every byte as two lower-case hex digits, in order.
#[verifier::external_body]
fn hex_encode(bytes: &[u8]) -> (r: String)
    ensures
        r@ == hex_string(bytes@),
{
    hex::encode(bytes)
}

impl PrivateKey {
    /// Whether two keys hold the same bytes.
    pub fn same_as(&self, other: &PrivateKey) -> (r: bool)
        ensures
            r == (self.bytes@ == other.bytes@),
    {
        let mut i: usize = 0;
        while i < 32
            invariant
                i <= 32,
                forall|j: int| 0 <= j < i ==> self.bytes@[j] == other.bytes@[j],
            decreases 32 - i,
        {
            if self.bytes[i] != other.bytes[i] {
                return false;
            }
            i = i + 1;
        }
        assert(self.bytes@ =~= other.bytes@);
        true
    }

    /// The key in hex, as the harness prints it.
    pub fn to_hex(&self) -> (r: String)
        ensures
            r@ == hex_string(self.bytes@),
    {
        hex_encode(&self.bytes)
    }
}

/// A simulated node: its id, its state, the sockets it listens on and its addresses
/// inside the tunnel.
#[derive(Clone, Copy, Debug)]
pub struct SimNode<S> {
    pub id: u128,
    pub state: S,
    pub ip4_socket: Option<SocketAddrV4>,
    pub ip6_socket: Option<SocketAddrV6>,
    pub tunnel_ip4: u32,
    pub tunnel_ip6: u128,
}

impl<S> SimNode<S> {
    /// A packet sent to `dst` reaches this node.
    pub open spec fn wants_spec(&self, dst: SocketAddr) -> bool {
        ||| self.ip4_socket matches Some(s) && SocketAddr::V4(s) == dst
        ||| self.ip6_socket matches Some(s) && SocketAddr::V6(s) == dst
    }

    /// The socket this node sends from to reach `dst`: the one of the same family.
    pub open spec fn sending_socket_spec(&self, dst: SocketAddr) -> Option<SocketAddr> {
        match dst {
            SocketAddr::V4(_) => match self.ip4_socket {
                Some(s) => Some(SocketAddr::V4(s)),
                None => None,
            },
            SocketAddr::V6(_) => match self.ip6_socket {
                Some(s) => Some(SocketAddr::V6(s)),
                None => None,
            },
        }
    }

    /// The node's tunnel address of the same family as `dst`.
    pub open spec fn tunnel_ip_spec(&self, dst: IpAddr) -> IpAddr {
        match dst {
            IpAddr::V4(_) => IpAddr::V4(self.tunnel_ip4),
            IpAddr::V6(_) => IpAddr::V6(self.tunnel_ip6),
        }
    }

    pub fn wants(&self, dst: SocketAddr) -> (r: bool)
        ensures
            r == self.wants_spec(dst),
    {
        let v4 = match self.ip4_socket {
            Some(s) => match dst {
                SocketAddr::V4(d) => s == d,
                SocketAddr::V6(_) => false,
            },
            None => false,
        };
        let v6 = match self.ip6_socket {
            Some(s) => match dst {
                SocketAddr::V6(d) => s == d,
                SocketAddr::V4(_) => false,
            },
            None => false,
        };
        v4 || v6
    }

    pub fn sending_socket_for(&self, dst: SocketAddr) -> (r: Option<SocketAddr>)
        ensures
            r == self.sending_socket_spec(dst),
    {
        match dst {
            SocketAddr::V4(_) => match self.ip4_socket {
                Some(s) => Some(SocketAddr::V4(s)),
                None => None,
            },
            SocketAddr::V6(_) => match self.ip6_socket {
                Some(s) => Some(SocketAddr::V6(s)),
                None => None,
            },
        }
    }

    pub fn tunnel_ip(&self, dst: IpAddr) -> (r: IpAddr)
        ensures
            r == self.tunnel_ip_spec(dst),
    {
        match dst {
            IpAddr::V4(_) => IpAddr::V4(self.tunnel_ip4),
            IpAddr::V6(_) => IpAddr::V6(self.tunnel_ip6),
        }
    }

    /// The same node with its state replaced by `f` applied to it.
    pub fn map_state<T, F: FnOnce(S) -> T>(self, f: F) -> (r: SimNode<T>)
        requires
            f.requires((self.state,)),
        ensures
            f.ensures((self.state,), r.state),
            r.id == self.id,
            r.ip4_socket == self.ip4_socket,
            r.ip6_socket == self.ip6_socket,
            r.tunnel_ip4 == self.tunnel_ip4,
            r.tunnel_ip6 == self.tunnel_ip6,
    {
        SimNode {
            id: self.id,
            state: f(self.state),
            ip4_socket: self.ip4_socket,
            ip6_socket: self.ip6_socket,
            tunnel_ip4: self.tunnel_ip4,
            tunnel_ip6: self.tunnel_ip6,
        }
    }
}

/// A node receives exactly what is sent to one of its own sockets, and it answers from
/// the socket of the destination's family, which it would itself receive on.
pub proof fn lemma_node_sockets<S>(node: SimNode<S>, dst: SocketAddr)
    ensures
        node.sending_socket_spec(dst) matches Some(s) ==> node.wants_spec(s) && (s is V4 <==> dst is V4),
        node.wants_spec(dst) ==> node.sending_socket_spec(dst) == Some(dst),
{
}

} // verus!
