use tunnel_sim::echo::{EchoLog, EchoPacket, HandshakeFailure, check_handshakes};
use tunnel_sim::harness::{
    AdvanceStep, Delivery, RelayMessageDelivery, due_timeouts, next_advance_step, route_relay_message, route_transmit,
    same_servers,
};
use tunnel_sim::net::{IpAddr, SocketAddr, SocketAddrV4};
use tunnel_sim::node::{PrivateKey, SimNode};
use tunnel_sim::relay::{AddressFamily, AllocationPort, IpStack, SimRelay};
use tunnel_sim::setup::{node_prototype, relay_prototype};
use tunnel_sim::harness::{SutAction, plan_action};
use tunnel_sim::reference::{ReferenceState, Transition};
use std::collections::VecDeque;

fn s4(ip: u32, port: u16) -> SocketAddr {
    SocketAddr::V4(SocketAddrV4 { ip, port })
}

fn nodes() -> (SimNode<PrivateKey>, SimNode<PrivateKey>, SimRelay<u64>) {
    let client = node_prototype(1, [1; 32], IpStack::Ip4(0x0101_0101), 1000, 1000, 0x6440_0001, 1);
    let gateway = node_prototype(2, [2; 32], IpStack::Ip4(0x0202_0202), 2000, 2000, 0x6440_0002, 2);
    let relay = relay_prototype(0, IpStack::Ip4(0x0303_0303), 3);
    (client, gateway, relay)
}

#[test]
fn advance_restarts_after_progress_and_ends_after_a_quiet_pass() {
    assert_eq!(next_advance_step(AdvanceStep::GatewayEvent, true), Some(AdvanceStep::DispatchBuffered));
    let mut step = AdvanceStep::DispatchBuffered;
    let mut polls = 0;
    loop {
        polls += 1;
        match next_advance_step(step, false) {
            Some(next) => step = next,
            None => break,
        }
    }
    assert_eq!(polls, 7);
    assert_eq!(step, AdvanceStep::Timeout);
}

#[test]
fn timeouts_are_due_at_or_before_now() {
    let due = due_timeouts(100, Some(100), Some(101), None);
    assert!(due.client);
    assert!(!due.gateway);
    assert!(!due.relay);
    assert!(due.any());
    assert!(!due_timeouts(5, None, Some(6), Some(7)).any());
}

#[test]
fn transmits_go_to_the_relay_first() {
    let (client, gateway, mut relay) = nodes();
    relay.allocations.insert(AddressFamily::V4, AllocationPort::new(50000));
    let from = s4(0x0101_0101, 1000);
    assert_eq!(
        route_transmit(&client, &gateway, &relay, Some(from), s4(0x0303_0303, 3478), Some(from)),
        Delivery::Relay { src: from }
    );
    assert_eq!(
        route_transmit(&client, &gateway, &relay, None, s4(0x0303_0303, 50000), Some(from)),
        Delivery::Relay { src: from }
    );
    assert_eq!(
        route_transmit(&client, &gateway, &relay, Some(from), s4(0x0202_0202, 2000), Some(from)),
        Delivery::Gateway { src: from }
    );
    let back = s4(0x0202_0202, 2000);
    assert_eq!(
        route_transmit(&client, &gateway, &relay, Some(back), s4(0x0101_0101, 1000), Some(back)),
        Delivery::Client { src: back }
    );
    assert_eq!(route_transmit(&client, &gateway, &relay, Some(from), s4(9, 9), None), Delivery::Dropped);
    assert_eq!(route_transmit(&client, &gateway, &relay, None, s4(9, 9), Some(from)), Delivery::MissingSource);
    assert_eq!(
        route_transmit(&client, &gateway, &relay, Some(from), s4(9, 9), Some(from)),
        Delivery::Unhandled { src: from, dst: s4(9, 9) }
    );
}

#[test]
fn relay_messages_leave_from_the_turn_port() {
    let (client, gateway, relay) = nodes();
    let src = s4(0x0303_0303, 3478);
    assert_eq!(route_relay_message(&client, &gateway, &relay, s4(0x0101_0101, 1000)), RelayMessageDelivery::Client { src });
    assert_eq!(route_relay_message(&client, &gateway, &relay, s4(0x0202_0202, 2000)), RelayMessageDelivery::Gateway { src });
    assert_eq!(route_relay_message(&client, &gateway, &relay, s4(5, 5)), RelayMessageDelivery::Unhandled { src });
    assert_eq!(
        route_relay_message(&client, &gateway, &relay, SocketAddr::new(IpAddr::V6(1), 1)),
        RelayMessageDelivery::NoSocket
    );
}

#[test]
fn dns_server_lists_compare_as_sets() {
    let a = vec![s4(1, 53), s4(2, 53), s4(1, 53)];
    let b = vec![s4(2, 53), s4(1, 53)];
    assert!(same_servers(&a, &b));
    assert!(!same_servers(&a, &vec![s4(2, 53)]));
    assert!(!same_servers(&vec![], &b));
    assert!(same_servers(&vec![], &vec![]));
}

fn logs() -> (EchoLog, EchoLog, EchoLog) {
    let client_ip = IpAddr::V4(0x6440_0001);
    let resource = IpAddr::V4(0x0a00_0001);
    let mut sent = EchoLog::new();
    let mut replies = EchoLog::new();
    let mut received = EchoLog::new();
    sent.insert(1, 2, EchoPacket { src: client_ip, dst: resource });
    replies.insert(1, 2, EchoPacket { src: resource, dst: client_ip });
    received.insert(1, 2, EchoPacket { src: client_ip, dst: resource });
    (sent, replies, received)
}

#[test]
fn completed_handshake_passes_the_check() {
    let (client, _, _) = nodes();
    let (sent, replies, received) = logs();
    let expected: VecDeque<(IpAddr, u16, u16)> = VecDeque::from(vec![(IpAddr::V4(0x0a00_0001), 1, 2)]);
    assert_eq!(check_handshakes(&expected, &client, &sent, &replies, &received), Ok(()));
    assert_eq!(check_handshakes(&VecDeque::new(), &client, &sent, &replies, &received), Ok(()));
}

#[test]
fn each_handshake_failure_is_reported() {
    let (client, _, _) = nodes();
    let resource = IpAddr::V4(0x0a00_0001);
    let client_ip = IpAddr::V4(0x6440_0001);
    let expected: VecDeque<(IpAddr, u16, u16)> = VecDeque::from(vec![(resource, 1, 2)]);
    let (sent, replies, received) = logs();
    let empty = EchoLog::new();
    assert_eq!(
        check_handshakes(&expected, &client, &empty, &replies, &received),
        Err(HandshakeFailure::MissingRequest { seq: 1, identifier: 2 })
    );
    assert_eq!(
        check_handshakes(&expected, &client, &sent, &empty, &received),
        Err(HandshakeFailure::MissingReply { seq: 1, identifier: 2 })
    );
    assert_eq!(
        check_handshakes(&expected, &client, &sent, &replies, &empty),
        Err(HandshakeFailure::MissingGatewayRequest { seq: 1, identifier: 2 })
    );
    let mut foreign = EchoLog::new();
    foreign.insert(1, 2, EchoPacket { src: IpAddr::V4(7), dst: resource });
    assert_eq!(
        check_handshakes(&expected, &client, &sent, &replies, &foreign),
        Err(HandshakeFailure::GatewaySourceNotClient { seq: 1, identifier: 2 })
    );
    let mut elsewhere = EchoLog::new();
    elsewhere.insert(1, 2, EchoPacket { src: client_ip, dst: IpAddr::V4(8) });
    assert_eq!(
        check_handshakes(&expected, &client, &sent, &replies, &elsewhere),
        Err(HandshakeFailure::GatewayDestinationWrong { seq: 1, identifier: 2 })
    );
    let mut wrong_src = EchoLog::new();
    wrong_src.insert(1, 2, EchoPacket { src: IpAddr::V4(8), dst: client_ip });
    assert_eq!(
        check_handshakes(&expected, &client, &sent, &wrong_src, &received),
        Err(HandshakeFailure::ReplySourceMismatch { seq: 1, identifier: 2 })
    );
    let mut wrong_dst = EchoLog::new();
    wrong_dst.insert(1, 2, EchoPacket { src: resource, dst: IpAddr::V4(8) });
    assert_eq!(
        check_handshakes(&expected, &client, &sent, &wrong_dst, &received),
        Err(HandshakeFailure::ReplyDestinationMismatch { seq: 1, identifier: 2 })
    );
}

#[test]
fn echo_log_keeps_the_latest_packet_per_pair() {
    let mut log = EchoLog::new();
    log.insert(1, 2, EchoPacket { src: IpAddr::V4(1), dst: IpAddr::V4(2) });
    log.insert(2, 1, EchoPacket { src: IpAddr::V4(3), dst: IpAddr::V4(4) });
    log.insert(1, 2, EchoPacket { src: IpAddr::V4(5), dst: IpAddr::V4(6) });
    assert_eq!(log.get(1, 2), Some(EchoPacket { src: IpAddr::V4(5), dst: IpAddr::V4(6) }));
    assert_eq!(log.get(2, 1), Some(EchoPacket { src: IpAddr::V4(3), dst: IpAddr::V4(4) }));
    assert_eq!(log.get(2, 2), None);
}

#[test]
fn echo_requests_leave_from_the_tunnel_address() {
    let (client, gateway, relay) = nodes();
    let reference = ReferenceState::new(0, client, gateway, relay, vec![], vec![]);
    match plan_action(&reference, &client, Transition::SendICMPPacketToRandomIp { dst: IpAddr::V6(5), seq: 1, identifier: 2 }) {
        SutAction::SendEchoRequest { src, dst, seq, identifier } => {
            assert_eq!(src, IpAddr::V6(1));
            assert_eq!(dst, IpAddr::V6(5));
            assert_eq!((seq, identifier), (1, 2));
        }
        _ => panic!("expected an echo request"),
    }
    match plan_action(&reference, &client, Transition::Tick { millis: 9 }) {
        SutAction::AdvanceClock { millis } => assert_eq!(millis, 9),
        _ => panic!("expected the clock to advance"),
    }
}
