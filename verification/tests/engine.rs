use mitmproxy_wireguard::address::IpAddress;
use mitmproxy_wireguard::address::SocketAddress;
use mitmproxy_wireguard::engine::classify;
use mitmproxy_wireguard::engine::peer_of_receiver;
use mitmproxy_wireguard::engine::Datagram;
use mitmproxy_wireguard::engine::Engine;
use mitmproxy_wireguard::engine::EngineAction;
use mitmproxy_wireguard::engine::Route;
use mitmproxy_wireguard::engine::TunnelOutcome;

fn outside(n: u8) -> SocketAddress {
    SocketAddress::v4(203, 0, 113, n, 51820)
}

fn inside(n: u8) -> IpAddress {
    IpAddress::V4([10, 0, 0, n])
}

#[test]
fn new_engine_knows_nothing() {
    let engine = Engine::new(3);
    assert_eq!(engine.endpoints, vec![None, None, None]);
    assert!(engine.routes.is_empty());
    assert_eq!(engine.dropped, 0);
    assert_eq!(engine.endpoint(0), None);
    assert_eq!(engine.endpoint(3), None);
    assert_eq!(engine.route(inside(1)), None);
}

#[test]
fn refused_datagram_is_dropped_and_counted() {
    let mut engine = Engine::new(1);
    assert_eq!(engine.received(0, outside(1), TunnelOutcome::Failed), EngineAction::Nothing);
    assert_eq!(engine.dropped, 1);
    assert_eq!(engine.endpoint(0), None);
    assert_eq!(engine.received(0, outside(1), TunnelOutcome::Failed), EngineAction::Nothing);
    assert_eq!(engine.dropped, 2);
}

#[test]
fn answer_goes_back_to_the_sender() {
    let mut engine = Engine::new(1);
    let before = engine.clone();
    let action = engine.received(0, outside(7), TunnelOutcome::ToNetwork(vec![2, 0, 0, 0]));
    assert_eq!(action, EngineAction::Send(vec![2, 0, 0, 0], outside(7)));
    assert_eq!(engine, before);
}

#[test]
fn accepted_packet_sets_endpoint_and_route() {
    let mut engine = Engine::new(2);
    let action = engine.received(1, outside(7), TunnelOutcome::ToStack(vec![0x45, 0], inside(9)));
    assert_eq!(action, EngineAction::Deliver(vec![0x45, 0]));
    assert_eq!(engine.endpoint(1), Some(outside(7)));
    assert_eq!(engine.endpoint(0), None);
    assert_eq!(engine.route(inside(9)), Some(1));
    assert_eq!(engine.route(inside(8)), None);
    assert_eq!(engine.dropped, 0);
}

#[test]
fn keepalive_sets_the_endpoint() {
    let mut engine = Engine::new(1);
    assert_eq!(engine.received(0, outside(3), TunnelOutcome::Done), EngineAction::Nothing);
    assert_eq!(engine.endpoint(0), Some(outside(3)));
    assert!(engine.routes.is_empty());
}

#[test]
fn endpoint_follows_a_roaming_peer() {
    let mut engine = Engine::new(1);
    engine.received(0, outside(1), TunnelOutcome::Done);
    engine.received(0, outside(2), TunnelOutcome::ToStack(vec![1], inside(5)));
    assert_eq!(engine.endpoint(0), Some(outside(2)));
    engine.received(0, outside(3), TunnelOutcome::Failed);
    assert_eq!(engine.endpoint(0), Some(outside(2)));
    let action = engine.emitted(0, TunnelOutcome::ToNetwork(vec![4, 4]));
    assert_eq!(action, EngineAction::Send(vec![4, 4], outside(2)));
}

#[test]
fn route_moves_with_the_address() {
    let mut engine = Engine::new(3);
    engine.received(0, outside(1), TunnelOutcome::ToStack(vec![1], inside(5)));
    engine.received(1, outside(2), TunnelOutcome::ToStack(vec![1], inside(6)));
    engine.received(2, outside(3), TunnelOutcome::ToStack(vec![1], inside(5)));
    assert_eq!(engine.route(inside(5)), Some(2));
    assert_eq!(engine.route(inside(6)), Some(1));
    assert_eq!(
        engine.routes,
        vec![Route { address: inside(5), peer: 2 }, Route { address: inside(6), peer: 1 }]
    );
    let v6 = IpAddress::V6([0xfd00, 0, 0, 0, 0, 0, 0, 5]);
    engine.received(1, outside(2), TunnelOutcome::ToStack(vec![1], v6));
    assert_eq!(engine.route(v6), Some(1));
    assert_eq!(engine.route(IpAddress::V6([0xfd00, 0, 0, 0, 0, 0, 0, 6])), None);
    assert_eq!(engine.route(inside(5)), Some(2));
}

#[test]
fn packet_for_a_peer_without_endpoint_is_dropped() {
    let mut engine = Engine::new(1);
    assert_eq!(engine.emitted(0, TunnelOutcome::ToNetwork(vec![1])), EngineAction::Nothing);
    assert_eq!(engine.dropped, 1);
    assert_eq!(engine.emitted(5, TunnelOutcome::ToNetwork(vec![1])), EngineAction::Nothing);
    assert_eq!(engine.dropped, 2);
}

#[test]
fn queued_packet_owes_nothing() {
    let mut engine = Engine::new(1);
    engine.received(0, outside(1), TunnelOutcome::Done);
    let before = engine.clone();
    assert_eq!(engine.emitted(0, TunnelOutcome::Done), EngineAction::Nothing);
    assert_eq!(engine.emitted(0, TunnelOutcome::ToStack(vec![1], inside(1))), EngineAction::Nothing);
    assert_eq!(engine, before);
    assert_eq!(engine.emitted(0, TunnelOutcome::Failed), EngineAction::Nothing);
    assert_eq!(engine.dropped, 1);
}

#[test]
fn drop_counter_stops_at_the_top() {
    let mut engine = Engine::new(0);
    engine.dropped = u64::MAX - 1;
    engine.unroutable();
    assert_eq!(engine.dropped, u64::MAX);
    engine.unroutable();
    assert_eq!(engine.dropped, u64::MAX);
}

#[test]
fn peer_beyond_the_list_gets_no_endpoint() {
    let mut engine = Engine::new(1);
    assert_eq!(engine.received(4, outside(1), TunnelOutcome::Done), EngineAction::Nothing);
    assert_eq!(engine.endpoints, vec![None]);
}

#[test]
fn classify_by_type_and_length() {
    let mut init = vec![0u8; 148];
    init[0] = 1;
    assert_eq!(classify(&init), Datagram::HandshakeInitiation);
    assert_eq!(classify(&init[..147]), Datagram::Invalid);
    let mut response = vec![0u8; 92];
    response[0] = 2;
    response[4..8].copy_from_slice(&[1, 1, 1, 1]);
    response[8..12].copy_from_slice(&[0x05, 0x02, 0x00, 0x00]);
    assert_eq!(classify(&response), Datagram::ForReceiver(0x205));
    let mut cookie = vec![0u8; 64];
    cookie[0] = 3;
    cookie[4..8].copy_from_slice(&[0xff, 0xff, 0xff, 0xff]);
    assert_eq!(classify(&cookie), Datagram::ForReceiver(u32::MAX));
    let mut data = vec![0u8; 32];
    data[0] = 4;
    data[4..8].copy_from_slice(&[0x78, 0x56, 0x34, 0x12]);
    assert_eq!(classify(&data), Datagram::ForReceiver(0x12345678));
    data.extend_from_slice(&[0; 1000]);
    assert_eq!(classify(&data), Datagram::ForReceiver(0x12345678));
    assert_eq!(classify(&data[..31]), Datagram::Invalid);
}

#[test]
fn classify_refuses_other_types() {
    assert_eq!(classify(&[]), Datagram::Invalid);
    assert_eq!(classify(&[4, 0, 0]), Datagram::Invalid);
    let mut data = vec![0u8; 148];
    assert_eq!(classify(&data), Datagram::Invalid);
    data[0] = 5;
    assert_eq!(classify(&data), Datagram::Invalid);
    data[0] = 1;
    data[1] = 1;
    assert_eq!(classify(&data), Datagram::Invalid);
    data[1] = 0;
    data[3] = 0x80;
    assert_eq!(classify(&data), Datagram::Invalid);
}

#[test]
fn session_index_names_the_peer() {
    assert_eq!(peer_of_receiver(0), 0);
    assert_eq!(peer_of_receiver(255), 0);
    assert_eq!(peer_of_receiver(256), 1);
    assert_eq!(peer_of_receiver(0x205), 2);
    assert_eq!(peer_of_receiver(u32::MAX), 0xff_ffff);
}
