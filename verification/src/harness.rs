//! The decisions of the harness that drives the client, the gateway and the relay: in
//! which order it polls them, when it lets time pass, and where it delivers packets.
use vstd::prelude::*;
use crate::net::SocketAddr;
use crate::node::SimNode;
use crate::relay::{SimRelay, TURN_PORT};
use crate::net::IpAddr;
use crate::reference::{DnsServer, ReferenceState, Transition};
use crate::resource::ResourceCidr;

verus! {

/// The sources the harness polls, in the order it polls them in each pass.
#[derive(Clone, Copy, Debug, PartialEq, Eq, Structural)]
pub enum AdvanceStep {
    /// Packets waiting to be delivered.
    DispatchBuffered,
    /// Packets the client wants to send.
    ClientTransmit,
    /// Events of the client.
    ClientEvent,
    /// Packets the gateway wants to send.
    GatewayTransmit,
    /// Events of the gateway.
    GatewayEvent,
    /// Commands of the relay's server.
    RelayCommand,
    /// Timeouts that are due.
    Timeout,
}

/// The position of a source in a pass.
pub open spec fn step_index(s: AdvanceStep) -> nat {
    match s {
        AdvanceStep::DispatchBuffered => 0,
        AdvanceStep::ClientTransmit => 1,
        AdvanceStep::ClientEvent => 2,
        AdvanceStep::GatewayTransmit => 3,
        AdvanceStep::GatewayEvent => 4,
        AdvanceStep::RelayCommand => 5,
        AdvanceStep::Timeout => 6,
    }
}

/// Where the harness looks after polling `step`: back at the start of a pass after any
/// progress, at the next source otherwise; after a pass in which even the timeouts made
/// no progress, nowhere, which ends the advance.
pub open spec fn next_step_spec(step: AdvanceStep, progressed: bool) -> Option<AdvanceStep> {
    if progressed {
        Some(AdvanceStep::DispatchBuffered)
    } else {
        match step {
            AdvanceStep::DispatchBuffered => Some(AdvanceStep::ClientTransmit),
            AdvanceStep::ClientTransmit => Some(AdvanceStep::ClientEvent),
            AdvanceStep::ClientEvent => Some(AdvanceStep::GatewayTransmit),
            AdvanceStep::GatewayTransmit => Some(AdvanceStep::GatewayEvent),
            AdvanceStep::GatewayEvent => Some(AdvanceStep::RelayCommand),
            AdvanceStep::RelayCommand => Some(AdvanceStep::Timeout),
            AdvanceStep::Timeout => None,
        }
    }
}

pub fn next_advance_step(step: AdvanceStep, progressed: bool) -> (r: Option<AdvanceStep>)
    ensures
        r == next_step_spec(step, progressed),
{
    if progressed {
        return Some(AdvanceStep::DispatchBuffered);
    }
    match step {
        AdvanceStep::DispatchBuffered => Some(AdvanceStep::ClientTransmit),
        AdvanceStep::ClientTransmit => Some(AdvanceStep::ClientEvent),
        AdvanceStep::ClientEvent => Some(AdvanceStep::GatewayTransmit),
        AdvanceStep::GatewayTransmit => Some(AdvanceStep::GatewayEvent),
        AdvanceStep::GatewayEvent => Some(AdvanceStep::RelayCommand),
        AdvanceStep::RelayCommand => Some(AdvanceStep::Timeout),
        AdvanceStep::Timeout => None,
    }
}

/// The step the harness is at after polling with the given outcomes, starting at
/// `start`; `None` once the advance has ended.
pub open spec fn run_steps(start: AdvanceStep, outcomes: Seq<bool>) -> Option<AdvanceStep>
    decreases outcomes.len(),
{
    if outcomes.len() == 0 {
        Some(start)
    } else {
        match run_steps(start, outcomes.drop_last()) {
            Some(s) => next_step_spec(s, outcomes.last()),
            None => None,
        }
    }
}

/// While the advance goes on, the harness is at the source whose position in the pass is
/// the number of polls since the last progress.
proof fn lemma_run_position(outcomes: Seq<bool>)
    ensures
        run_steps(AdvanceStep::DispatchBuffered, outcomes) matches Some(s) ==> (forall|j: int|
            outcomes.len() - step_index(s) <= j < outcomes.len() ==> !#[trigger] outcomes[j]) && step_index(s)
            <= outcomes.len(),
    decreases outcomes.len(),
{
    if outcomes.len() > 0 {
        let p = outcomes.drop_last();
        lemma_run_position(p);
        assert forall|j: int| 0 <= j < p.len() implies p[j] == outcomes[j] by {}
    }
}

/// The advance ends only after a full pass in which no source made progress: the last
/// seven polls, one of each source, all came back empty. Any progress starts a new pass,
/// so no source is left unpolled after the last change.
pub proof fn lemma_advance_ends_after_quiet_pass(outcomes: Seq<bool>)
    requires
        outcomes.len() > 0,
        run_steps(AdvanceStep::DispatchBuffered, outcomes.drop_last()) is Some,
        run_steps(AdvanceStep::DispatchBuffered, outcomes) is None,
    ensures
        outcomes.len() >= 7,
        forall|j: int| outcomes.len() - 7 <= j < outcomes.len() ==> !#[trigger] outcomes[j],
{
    let p = outcomes.drop_last();
    lemma_run_position(p);
    let s = run_steps(AdvanceStep::DispatchBuffered, p)->0;
    assert(s == AdvanceStep::Timeout && !outcomes.last());
    assert forall|j: int| outcomes.len() - 7 <= j < outcomes.len() implies !#[trigger] outcomes[j] by {
        if j < p.len() {
            assert(p[j] == outcomes[j]);
        }
    }
}

/// Which components have a timeout that is due, by their deadlines and the current time
/// on the harness's clock.
#[derive(Clone, Copy, Debug, PartialEq, Eq, Structural)]
pub struct DueTimeouts {
    pub client: bool,
    pub gateway: bool,
    pub relay: bool,
}

impl DueTimeouts {
    /// Whether any component is due, that is, whether handling the timeouts advances the
    /// simulation.
    pub fn any(&self) -> (r: bool)
        ensures
            r == (self.client || self.gateway || self.relay),
    {
        self.client || self.gateway || self.relay
    }
}

/// A deadline is due when there is one and it is not after `now`.
pub open spec fn is_due(deadline: Option<u128>, now: u128) -> bool {
    deadline matches Some(t) && t <= now
}

/// The components whose timeouts are due at `now`.
pub fn due_timeouts(now: u128, client: Option<u128>, gateway: Option<u128>, relay: Option<u128>) -> (r: DueTimeouts)
    ensures
        r.client == is_due(client, now),
        r.gateway == is_due(gateway, now),
        r.relay == is_due(relay, now),
{
    let c = match client {
        Some(t) => t <= now,
        None => false,
    };
    let g = match gateway {
        Some(t) => t <= now,
        None => false,
    };
    let rl = match relay {
        Some(t) => t <= now,
        None => false,
    };
    DueTimeouts { client: c, gateway: g, relay: rl }
}

/// Where a packet is delivered in the simulated network.
#[derive(Clone, Copy, Debug, PartialEq, Eq, Structural)]
pub enum Delivery {
    /// The sender has no socket of the destination's family: the packet is dropped.
    Dropped,
    /// The relay takes it, as sent from `src`.
    Relay { src: SocketAddr },
    /// The client takes it, as sent from `src`.
    Client { src: SocketAddr },
    /// The gateway takes it, as sent from `src`.
    Gateway { src: SocketAddr },
    /// It is not for the relay, yet it carries no source address.
    MissingSource,
    /// Nobody takes it.
    Unhandled { src: SocketAddr, dst: SocketAddr },
}

/// The delivery of a packet to `dst` with source `src`, sent from `sending_socket`: the
/// relay has the first claim, then the client, then the gateway.
pub open spec fn delivery_spec<C, G, R>(
    client: SimNode<C>,
    gateway: SimNode<G>,
    relay: SimRelay<R>,
    src: Option<SocketAddr>,
    dst: SocketAddr,
    sending_socket: Option<SocketAddr>,
) -> Delivery {
    match sending_socket {
        None => Delivery::Dropped,
        Some(from) => if relay.wants_spec(dst) {
            Delivery::Relay { src: from }
        } else {
            match src {
                None => Delivery::MissingSource,
                Some(s) => if client.wants_spec(dst) {
                    Delivery::Client { src: s }
                } else if gateway.wants_spec(dst) {
                    Delivery::Gateway { src: s }
                } else {
                    Delivery::Unhandled { src: s, dst }
                },
            }
        },
    }
}

/// Dispatches a packet to the component that takes it: the network layer of the
/// simulation, which routes by the components' addresses alone.
pub fn route_transmit<C, G, R>(
    client: &SimNode<C>,
    gateway: &SimNode<G>,
    relay: &SimRelay<R>,
    src: Option<SocketAddr>,
    dst: SocketAddr,
    sending_socket: Option<SocketAddr>,
) -> (r: Delivery)
    ensures
        r == delivery_spec(*client, *gateway, *relay, src, dst, sending_socket),
{
    let from = match sending_socket {
        None => {
            return Delivery::Dropped;
        },
        Some(from) => from,
    };
    if relay.wants(dst) {
        return Delivery::Relay { src: from };
    }
    let s = match src {
        None => {
            return Delivery::MissingSource;
        },
        Some(s) => s,
    };
    if client.wants(dst) {
        return Delivery::Client { src: s };
    }
    if gateway.wants(dst) {
        return Delivery::Gateway { src: s };
    }
    Delivery::Unhandled { src: s, dst }
}

/// Where a message that the relay's server sends to a recipient goes.
#[derive(Clone, Copy, Debug, PartialEq, Eq, Structural)]
pub enum RelayMessageDelivery {
    /// The relay has no address of the recipient's family to send from.
    NoSocket,
    Client { src: SocketAddr },
    Gateway { src: SocketAddr },
    Unhandled { src: SocketAddr },
}

/// The delivery of a message from the relay's server to `recipient`: it leaves from the
/// relay's TURN port, and the client, then the gateway, may take it.
pub open spec fn relay_message_spec<C, G, R>(
    client: SimNode<C>,
    gateway: SimNode<G>,
    relay: SimRelay<R>,
    recipient: SocketAddr,
) -> RelayMessageDelivery {
    match relay.ip_of(crate::relay::family_of(recipient)) {
        None => RelayMessageDelivery::NoSocket,
        Some(ip) => {
            let src = crate::net::socket_addr_of(ip, TURN_PORT);
            if client.wants_spec(recipient) {
                RelayMessageDelivery::Client { src }
            } else if gateway.wants_spec(recipient) {
                RelayMessageDelivery::Gateway { src }
            } else {
                RelayMessageDelivery::Unhandled { src }
            }
        },
    }
}

pub fn route_relay_message<C, G, R>(
    client: &SimNode<C>,
    gateway: &SimNode<G>,
    relay: &SimRelay<R>,
    recipient: SocketAddr,
) -> (r: RelayMessageDelivery)
    ensures
        r == relay_message_spec(*client, *gateway, *relay, recipient),
{
    let src = match relay.sending_socket_for(recipient, TURN_PORT) {
        None => {
            return RelayMessageDelivery::NoSocket;
        },
        Some(s) => s,
    };
    if client.wants(recipient) {
        return RelayMessageDelivery::Client { src };
    }
    if gateway.wants(recipient) {
        return RelayMessageDelivery::Gateway { src };
    }
    RelayMessageDelivery::Unhandled { src }
}

/// A packet whose sender has a socket of its destination's family and that goes to one
/// of the client's sockets reaches the client, unless the relay claims it; a packet to a
/// socket of the gateway reaches the gateway unless the relay or the client claims it.
pub proof fn lemma_delivery_to_owner<C, G, R>(
    client: SimNode<C>,
    gateway: SimNode<G>,
    relay: SimRelay<R>,
    src: SocketAddr,
    dst: SocketAddr,
    from: SocketAddr,
)
    requires
        !relay.wants_spec(dst),
    ensures
        client.wants_spec(dst) ==> delivery_spec(client, gateway, relay, Some(src), dst, Some(from))
            == (Delivery::Client { src }),
        !client.wants_spec(dst) && gateway.wants_spec(dst) ==> delivery_spec(
            client,
            gateway,
            relay,
            Some(src),
            dst,
            Some(from),
        ) == (Delivery::Gateway { src }),
{
}

/// What the harness does to the client for a transition.
pub enum SutAction {
    /// Tell the client of a resource.
    AddResource(ResourceCidr),
    /// Send an echo request from the client's tunnel address.
    SendEchoRequest { src: IpAddr, dst: IpAddr, seq: u16, identifier: u16 },
    /// Let time pass.
    AdvanceClock { millis: u64 },
    /// Change the system's DNS servers.
    SetSystemDns { servers: Vec<IpAddr> },
    /// Change the upstream DNS servers, keeping the client's tunnel addresses.
    SetUpstreamDns { servers: Vec<DnsServer> },
}

/// The echo request for a transition that sends one: from the client's tunnel address
/// of the destination's family, to the address the reference picks for it.
pub open spec fn echo_request<C>(client: SimNode<C>, dst: IpAddr, seq: u16, identifier: u16) -> (IpAddr, IpAddr, u16, u16) {
    (client.tunnel_ip_spec(dst), dst, seq, identifier)
}

/// Turns a transition into what the harness does to the client. An echo request to a
/// resource goes to the same address the reference picks for it, so the two sides see the
/// same packet.
pub fn plan_action<C>(ref_state: &ReferenceState, client: &SimNode<C>, t: Transition) -> (r: SutAction)
    requires
        ref_state.wf(),
        t matches Transition::SendICMPPacketToIp4Resource { .. } ==> ref_state.num_ip4() > 0,
        t matches Transition::SendICMPPacketToIp6Resource { r_idx, .. } ==> ref_state.num_ip6() > 0
            && ref_state.v6_sample_fits(r_idx),
    ensures
        match t {
            Transition::AddCidrResource(res) => r == SutAction::AddResource(res),
            Transition::SendICMPPacketToRandomIp { dst, seq, identifier } => r matches SutAction::SendEchoRequest {
                src: s,
                dst: d,
                seq: q,
                identifier: i,
            } && (s, d, q, i) == echo_request(*client, dst, seq, identifier),
            Transition::SendICMPPacketToIp4Resource { r_idx, seq, identifier } => r matches SutAction::SendEchoRequest {
                src: s,
                dst: d,
                seq: q,
                identifier: i,
            } && (s, d, q, i) == echo_request(
                *client,
                IpAddr::V4(ref_state.sampled_v4(r_idx)),
                seq,
                identifier,
            ),
            Transition::SendICMPPacketToIp6Resource { r_idx, seq, identifier } => r matches SutAction::SendEchoRequest {
                src: s,
                dst: d,
                seq: q,
                identifier: i,
            } && (s, d, q, i) == echo_request(
                *client,
                IpAddr::V6(ref_state.sampled_v6(r_idx)),
                seq,
                identifier,
            ),
            Transition::Tick { millis } => r == (SutAction::AdvanceClock { millis }),
            Transition::UpdateSystemDnsServers { servers } => r == (SutAction::SetSystemDns { servers }),
            Transition::UpdateUpstreamDnsServers { servers } => r == (SutAction::SetUpstreamDns { servers }),
        },
{
    match t {
        Transition::AddCidrResource(res) => SutAction::AddResource(res),
        Transition::SendICMPPacketToRandomIp { dst, seq, identifier } => {
            SutAction::SendEchoRequest { src: client.tunnel_ip(dst), dst, seq, identifier }
        },
        Transition::SendICMPPacketToIp4Resource { r_idx, seq, identifier } => {
            let dst = IpAddr::V4(ref_state.sample_ipv4_cidr_resource_dst(&r_idx));
            SutAction::SendEchoRequest { src: client.tunnel_ip(dst), dst, seq, identifier }
        },
        Transition::SendICMPPacketToIp6Resource { r_idx, seq, identifier } => {
            let dst = IpAddr::V6(ref_state.sample_ipv6_cidr_resource_dst(&r_idx));
            SutAction::SendEchoRequest { src: client.tunnel_ip(dst), dst, seq, identifier }
        },
        Transition::Tick { millis } => SutAction::AdvanceClock { millis },
        Transition::UpdateSystemDnsServers { servers } => SutAction::SetSystemDns { servers },
        Transition::UpdateUpstreamDnsServers { servers } => SutAction::SetUpstreamDns { servers },
    }
}

/// Whether two lists name the same set of servers.
pub fn same_servers(a: &Vec<SocketAddr>, b: &Vec<SocketAddr>) -> (r: bool)
    ensures
        r == (a@.to_set() == b@.to_set()),
{
    let a_in_b = all_contained(a, b);
    let b_in_a = all_contained(b, a);
    proof {
        if a_in_b && b_in_a {
            assert(a@.to_set() =~= b@.to_set());
        } else if a_in_b {
            let j = choose|j: int| 0 <= j < b@.len() && !a@.contains(b@[j]);
            assert(b@.to_set().contains(b@[j]));
            assert(!a@.to_set().contains(b@[j]));
        } else {
            let j = choose|j: int| 0 <= j < a@.len() && !b@.contains(a@[j]);
            assert(a@.to_set().contains(a@[j]));
            assert(!b@.to_set().contains(a@[j]));
        }
    }
    a_in_b && b_in_a
}

fn contains_addr(v: &Vec<SocketAddr>, x: SocketAddr) -> (r: bool)
    ensures
        r == v@.contains(x),
{
    let mut i: usize = 0;
    while i < v.len()
        invariant
            i <= v@.len(),
            forall|j: int| 0 <= j < i ==> v@[j] != x,
        decreases v@.len() - i,
    {
        if v[i] == x {
            assert(v@[i as int] == x);
            return true;
        }
        i = i + 1;
    }
    false
}

fn all_contained(a: &Vec<SocketAddr>, b: &Vec<SocketAddr>) -> (r: bool)
    ensures
        r == (forall|j: int| 0 <= j < a@.len() ==> b@.contains(#[trigger] a@[j])),
{
    let mut i: usize = 0;
    while i < a.len()
        invariant
            i <= a@.len(),
            forall|j: int| 0 <= j < i ==> b@.contains(#[trigger] a@[j]),
        decreases a@.len() - i,
    {
        if !contains_addr(b, a[i]) {
            return false;
        }
        i = i + 1;
    }
    true
}

} // verus!
