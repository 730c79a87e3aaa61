//! The echo requests and replies the harness sees, and the check it makes of them
//! against the handshakes the reference expects.
use vstd::prelude::*;
use std::collections::{HashMap, VecDeque};
use crate::net::IpAddr;
use crate::node::SimNode;
use crate::reference::Handshake;

verus! {

broadcast use vstd::std_specs::hash::group_hash_axioms;

/// The addresses of an echo request or reply.
#[derive(Clone, Copy, Debug, PartialEq, Eq, Structural)]
pub struct EchoPacket {
    pub src: IpAddr,
    pub dst: IpAddr,
}

/// The key of an echo packet's sequence number and identifier.
pub open spec fn echo_key(seq: u16, identifier: u16) -> u32 {
    (seq * 65536 + identifier) as u32
}

fn echo_key_exec(seq: u16, identifier: u16) -> (r: u32)
    ensures
        r == echo_key(seq, identifier),
{
    let s: u32 = seq as u32;
    let i: u32 = identifier as u32;
    s * 65536 + i
}

proof fn lemma_echo_key_injective(s1: u16, i1: u16, s2: u16, i2: u16)
    ensures
        echo_key(s1, i1) == echo_key(s2, i2) ==> s1 == s2 && i1 == i2,
{
}

/// The echo packets seen, by sequence number and identifier; a later packet with the
/// same pair replaces an earlier one.
pub struct EchoLog {
    packets: HashMap<u32, EchoPacket>,
}

impl View for EchoLog {
    type V = Map<(u16, u16), EchoPacket>;

    closed spec fn view(&self) -> Map<(u16, u16), EchoPacket> {
        Map::new(
            |k: (u16, u16)| self.packets@.contains_key(echo_key(k.0, k.1)),
            |k: (u16, u16)| self.packets@[echo_key(k.0, k.1)],
        )
    }
}

impl EchoLog {
    pub fn new() -> (r: EchoLog)
        ensures
            r@ == Map::<(u16, u16), EchoPacket>::empty(),
    {
        let r = EchoLog { packets: HashMap::new() };
        assert(r@ =~= Map::<(u16, u16), EchoPacket>::empty());
        r
    }

    pub fn insert(&mut self, seq: u16, identifier: u16, packet: EchoPacket)
        ensures
            final(self)@ == old(self)@.insert((seq, identifier), packet),
    {
        let key = echo_key_exec(seq, identifier);
        self.packets.insert(key, packet);
        proof {
            assert forall|k: (u16, u16)| #![auto] true implies (echo_key(k.0, k.1) == key <==> k == (seq, identifier)) by {
                lemma_echo_key_injective(k.0, k.1, seq, identifier);
            }
        }
        assert(final(self)@ =~= old(self)@.insert((seq, identifier), packet));
    }

    pub fn get(&self, seq: u16, identifier: u16) -> (r: Option<EchoPacket>)
        ensures
            r == (if self@.contains_key((seq, identifier)) {
                Some(self@[(seq, identifier)])
            } else {
                None::<EchoPacket>
            }),
    {
        let key = echo_key_exec(seq, identifier);
        match self.packets.get(&key) {
            Some(p) => Some(*p),
            None => None,
        }
    }
}

/// Why an expected handshake did not complete as it should have.
#[derive(Clone, Copy, Debug, PartialEq, Eq, Structural)]
pub enum HandshakeFailure {
    /// The client never sent the request.
    MissingRequest { seq: u16, identifier: u16 },
    /// The client never received the reply.
    MissingReply { seq: u16, identifier: u16 },
    /// The gateway never received the request.
    MissingGatewayRequest { seq: u16, identifier: u16 },
    /// The request on the gateway does not come from the client's tunnel address.
    GatewaySourceNotClient { seq: u16, identifier: u16 },
    /// The request on the gateway does not target the resource's address.
    GatewayDestinationWrong { seq: u16, identifier: u16 },
    /// The reply does not come from the request's destination.
    ReplySourceMismatch { seq: u16, identifier: u16 },
    /// The reply does not go to the request's source.
    ReplyDestinationMismatch { seq: u16, identifier: u16 },
}

/// What fails of an expected handshake, checked in this order: the client sent the
/// request, got the reply, the gateway got the request; the gateway's request comes from
/// the client's tunnel address and targets the resource; the reply comes from where the
/// request went and goes to where it came from.
pub open spec fn handshake_failure<S>(
    h: Handshake,
    client: SimNode<S>,
    sent: Map<(u16, u16), EchoPacket>,
    replies: Map<(u16, u16), EchoPacket>,
    received: Map<(u16, u16), EchoPacket>,
) -> Option<HandshakeFailure> {
    let (dst, seq, identifier) = h;
    let k = (seq, identifier);
    if !sent.contains_key(k) {
        Some(HandshakeFailure::MissingRequest { seq, identifier })
    } else if !replies.contains_key(k) {
        Some(HandshakeFailure::MissingReply { seq, identifier })
    } else if !received.contains_key(k) {
        Some(HandshakeFailure::MissingGatewayRequest { seq, identifier })
    } else if received[k].src != client.tunnel_ip_spec(received[k].src) {
        Some(HandshakeFailure::GatewaySourceNotClient { seq, identifier })
    } else if received[k].dst != dst {
        Some(HandshakeFailure::GatewayDestinationWrong { seq, identifier })
    } else if sent[k].dst != replies[k].src {
        Some(HandshakeFailure::ReplySourceMismatch { seq, identifier })
    } else if sent[k].src != replies[k].dst {
        Some(HandshakeFailure::ReplyDestinationMismatch { seq, identifier })
    } else {
        None
    }
}

fn check_one<S>(h: Handshake, client: &SimNode<S>, sent: &EchoLog, replies: &EchoLog, received: &EchoLog) -> (r: Option<HandshakeFailure>)
    ensures
        r == handshake_failure(h, *client, sent@, replies@, received@),
{
    let (dst, seq, identifier) = h;
    let request = match sent.get(seq, identifier) {
        None => {
            return Some(HandshakeFailure::MissingRequest { seq, identifier });
        },
        Some(p) => p,
    };
    let reply = match replies.get(seq, identifier) {
        None => {
            return Some(HandshakeFailure::MissingReply { seq, identifier });
        },
        Some(p) => p,
    };
    let on_gateway = match received.get(seq, identifier) {
        None => {
            return Some(HandshakeFailure::MissingGatewayRequest { seq, identifier });
        },
        Some(p) => p,
    };
    if on_gateway.src != client.tunnel_ip(on_gateway.src) {
        return Some(HandshakeFailure::GatewaySourceNotClient { seq, identifier });
    }
    if on_gateway.dst != dst {
        return Some(HandshakeFailure::GatewayDestinationWrong { seq, identifier });
    }
    if request.dst != reply.src {
        return Some(HandshakeFailure::ReplySourceMismatch { seq, identifier });
    }
    if request.src != reply.dst {
        return Some(HandshakeFailure::ReplyDestinationMismatch { seq, identifier });
    }
    None
}

/// Checks every expected handshake, in order, against what the client sent and received
/// and what the gateway received; the first failure found is reported.
pub fn check_handshakes<S>(
    expected: &VecDeque<Handshake>,
    client: &SimNode<S>,
    sent: &EchoLog,
    replies: &EchoLog,
    received: &EchoLog,
) -> (r: Result<(), HandshakeFailure>)
    ensures
        r is Ok <==> forall|i: int| 0 <= i < expected@.len() ==> handshake_failure(
            #[trigger] expected@[i],
            *client,
            sent@,
            replies@,
            received@,
        ) is None,
        r matches Err(f) ==> exists|i: int| {
            &&& 0 <= i < expected@.len()
            &&& handshake_failure(#[trigger] expected@[i], *client, sent@, replies@, received@) == Some(f)
            &&& forall|j: int| 0 <= j < i ==> handshake_failure(#[trigger] expected@[j], *client, sent@, replies@, received@) is None
        },
{
    let mut i: usize = 0;
    while i < expected.len()
        invariant
            i <= expected@.len(),
            forall|j: int| 0 <= j < i ==> handshake_failure(#[trigger] expected@[j], *client, sent@, replies@, received@) is None,
        decreases expected@.len() - i,
    {
        if let Some(f) = check_one(expected[i], client, sent, replies, received) {
            assert(handshake_failure(expected@[i as int], *client, sent@, replies@, received@) == Some(f));
            return Err(f);
        }
        i = i + 1;
    }
    Ok(())
}


/// An expected handshake passes exactly when the client sent its request and got a reply,
/// the gateway got the request from the client's tunnel address of the request's family
/// (IPv4 or IPv6 alike) addressed to the handshake's destination, and the reply came from
/// where the request went and went back to where it came from.
pub proof fn lemma_handshake_passes<S>(
    h: Handshake,
    client: SimNode<S>,
    sent: Map<(u16, u16), EchoPacket>,
    replies: Map<(u16, u16), EchoPacket>,
    received: Map<(u16, u16), EchoPacket>,
)
    ensures
        handshake_failure(h, client, sent, replies, received) is None <==> ({
            let k = (h.1, h.2);
            &&& sent.contains_key(k)
            &&& replies.contains_key(k)
            &&& received.contains_key(k)
            &&& match received[k].src {
                IpAddr::V4(a) => a == client.tunnel_ip4,
                IpAddr::V6(a) => a == client.tunnel_ip6,
            }
            &&& received[k].dst == h.0
            &&& sent[k].dst == replies[k].src
            &&& sent[k].src == replies[k].dst
        }),
{
}

} // verus!
