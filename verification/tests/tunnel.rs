use std::sync::Arc;

use boringtun::noise::Tunn;
use boringtun::noise::TunnResult;

use mitmproxy_wireguard::address::IpAddress;
use mitmproxy_wireguard::address::SocketAddress;
use mitmproxy_wireguard::engine::classify;
use mitmproxy_wireguard::engine::peer_of_receiver;
use mitmproxy_wireguard::engine::Datagram;
use mitmproxy_wireguard::engine::Engine;
use mitmproxy_wireguard::engine::EngineAction;
use mitmproxy_wireguard::engine::TunnelOutcome;
use mitmproxy_wireguard::keys::genkey;
use mitmproxy_wireguard::keys::parse_public_key;
use mitmproxy_wireguard::keys::parse_secret_key;
use mitmproxy_wireguard::keys::pubkey;
use mitmproxy_wireguard::packet::carried;
use mitmproxy_wireguard::packet::segment;
use mitmproxy_wireguard::packet::udp_packet;
use mitmproxy_wireguard::packet::Segment;
use mitmproxy_wireguard::server::WireguardConfig;
use mitmproxy_wireguard::server::WireguardServer;

const CLIENT: u32 = 7;
const SERVER: u32 = 3;

fn outcome(result: TunnResult) -> TunnelOutcome {
    match result {
        TunnResult::Done => TunnelOutcome::Done,
        TunnResult::Err(_) => TunnelOutcome::Failed,
        TunnResult::WriteToNetwork(bytes) => TunnelOutcome::ToNetwork(bytes.to_vec()),
        TunnResult::WriteToTunnelV4(packet, source) => {
            TunnelOutcome::ToStack(packet.to_vec(), IpAddress::V4(source.octets()))
        }
        TunnResult::WriteToTunnelV6(packet, source) => {
            TunnelOutcome::ToStack(packet.to_vec(), IpAddress::V6(source.segments()))
        }
    }
}

fn to_network(result: TunnResult) -> Vec<u8> {
    match outcome(result) {
        TunnelOutcome::ToNetwork(bytes) => bytes,
        other => panic!("the tunnel sends nothing: {:?}", other),
    }
}

fn tunnel(secret: &str, peer_public: &str, index: u32) -> Box<Tunn> {
    let secret = Arc::new(parse_secret_key(secret).expect("secret key"));
    let public = Arc::new(parse_public_key(peer_public).expect("public key"));
    Tunn::new(secret, public, None, None, index, None).expect("tunnel")
}

fn receiver(datagram: &[u8]) -> u32 {
    match classify(datagram) {
        Datagram::ForReceiver(index) => index,
        other => panic!("no receiver: {:?}", other),
    }
}

struct Pair {
    client: Box<Tunn>,
    server: Box<Tunn>,
}

fn pair() -> Pair {
    let server_secret = genkey();
    let server_public = pubkey(server_secret.clone()).expect("public key of the server");
    let client_secret = genkey();
    let client_public = pubkey(client_secret.clone()).expect("public key of the client");
    Pair {
        client: tunnel(&client_secret, &server_public, CLIENT),
        server: tunnel(&server_secret, &client_public, SERVER),
    }
}

/// Runs the handshake that the client starts to send `packet`, and returns the
/// keepalive and the data datagram that the client sends once it is done.
fn handshake(pair: &Pair, packet: &[u8]) -> (Vec<u8>, Vec<u8>) {
    let mut a = vec![0u8; 4096];
    let mut b = vec![0u8; 4096];
    let initiation = to_network(pair.client.encapsulate(packet, &mut a));
    assert_eq!(classify(&initiation), Datagram::HandshakeInitiation);
    let response = to_network(pair.server.decapsulate(None, &initiation, &mut b));
    assert_eq!(peer_of_receiver(receiver(&response)), CLIENT as usize);
    let keepalive = to_network(pair.client.decapsulate(None, &response, &mut a));
    let data = to_network(pair.client.decapsulate(None, &[], &mut a));
    (keepalive, data)
}

#[test]
fn generated_keys_complete_a_handshake() {
    let pair = pair();
    let packet = udp_packet(
        SocketAddress::v4(10, 0, 0, 9, 40000),
        SocketAddress::v4(10, 0, 0, 2, 53),
        b"hello",
    )
    .unwrap();
    let (keepalive, data) = handshake(&pair, &packet);
    let mut buffer = vec![0u8; 4096];
    assert_eq!(outcome(pair.server.decapsulate(None, &keepalive, &mut buffer)), TunnelOutcome::Done);
    assert_eq!(
        outcome(pair.server.decapsulate(None, &data, &mut buffer)),
        TunnelOutcome::ToStack(packet, IpAddress::V4([10, 0, 0, 9]))
    );
}

#[test]
fn session_indices_name_the_tunnel_of_the_peer() {
    let pair = pair();
    let packet = udp_packet(
        SocketAddress::v4(10, 0, 0, 9, 40000),
        SocketAddress::v4(10, 0, 0, 2, 53),
        b"hello",
    )
    .unwrap();
    let (keepalive, data) = handshake(&pair, &packet);
    assert_eq!(peer_of_receiver(receiver(&keepalive)), SERVER as usize);
    assert_eq!(peer_of_receiver(receiver(&data)), SERVER as usize);
}

#[test]
fn datagram_round_trip_through_the_tunnel() {
    let pair = pair();
    let inside = SocketAddress::v4(10, 0, 0, 9, 40000);
    let target = SocketAddress::v4(10, 0, 0, 2, 53);
    let from = SocketAddress::v4(203, 0, 113, 7, 51820);
    let request = udp_packet(inside, target, b"hello").unwrap();
    let (keepalive, data) = handshake(&pair, &request);
    let peer = peer_of_receiver(receiver(&data));
    let mut engine = Engine::new(4);
    let mut buffer = vec![0u8; 4096];

    let handed = outcome(pair.server.decapsulate(None, &keepalive, &mut buffer));
    assert_eq!(engine.received(peer, from, handed), EngineAction::Nothing);
    let handed = outcome(pair.server.decapsulate(None, &data, &mut buffer));
    let delivered = match engine.received(peer, from, handed) {
        EngineAction::Deliver(packet) => packet,
        other => panic!("nothing for the stack: {:?}", other),
    };
    assert_eq!(
        segment(&delivered),
        Segment::Udp { src_addr: inside, dst_addr: target, payload: b"hello".to_vec() }
    );
    assert_eq!(engine.endpoint(peer), Some(from));

    // The answer comes from the address that the peer sent to.
    let answer = udp_packet(target, inside, b"pong").unwrap();
    let back = carried(&answer).and_then(|found| engine.route(found.dst));
    assert_eq!(back, Some(SERVER as usize));
    let handed = outcome(pair.server.encapsulate(&answer, &mut buffer));
    let sent = match engine.emitted(peer, handed) {
        EngineAction::Send(bytes, to) => {
            assert_eq!(to, from);
            bytes
        }
        other => panic!("nothing for the network: {:?}", other),
    };
    assert_eq!(peer_of_receiver(receiver(&sent)), CLIENT as usize);
    let received = outcome(pair.client.decapsulate(None, &sent, &mut buffer));
    assert_eq!(received, TunnelOutcome::ToStack(answer.clone(), IpAddress::V4([10, 0, 0, 2])));
    assert_eq!(
        segment(&answer),
        Segment::Udp { src_addr: target, dst_addr: inside, payload: b"pong".to_vec() }
    );
}

#[test]
fn replayed_packet_is_not_delivered_again() {
    let pair = pair();
    let from = SocketAddress::v4(203, 0, 113, 7, 51820);
    let packet = udp_packet(
        SocketAddress::v4(10, 0, 0, 9, 40000),
        SocketAddress::v4(10, 0, 0, 2, 53),
        b"once",
    )
    .unwrap();
    let (_, data) = handshake(&pair, &packet);
    let mut engine = Engine::new(4);
    let mut buffer = vec![0u8; 4096];
    let first = outcome(pair.server.decapsulate(None, &data, &mut buffer));
    assert_eq!(engine.received(SERVER as usize, from, first), EngineAction::Deliver(packet));
    let elsewhere = SocketAddress::v4(198, 51, 100, 1, 9);
    for _ in 0..3 {
        let again = outcome(pair.server.decapsulate(None, &data, &mut buffer));
        assert_eq!(again, TunnelOutcome::Failed);
        assert_eq!(engine.received(SERVER as usize, elsewhere, again), EngineAction::Nothing);
    }
    assert_eq!(engine.dropped, 3);
    assert_eq!(engine.endpoint(SERVER as usize), Some(from));
}

#[test]
fn datagram_of_a_stranger_is_dropped() {
    let pair = pair();
    let stranger = tunnel(&genkey(), &pubkey(genkey()).unwrap(), 9);
    let mut buffer = vec![0u8; 4096];
    let initiation = to_network(stranger.encapsulate(&[], &mut buffer));
    assert_eq!(classify(&initiation), Datagram::HandshakeInitiation);
    let mut out = vec![0u8; 4096];
    let handed = outcome(pair.server.decapsulate(None, &initiation, &mut out));
    assert_eq!(handed, TunnelOutcome::Failed);
    let mut engine = Engine::new(4);
    let from = SocketAddress::v4(198, 51, 100, 1, 9);
    assert_eq!(engine.received(SERVER as usize, from, handed), EngineAction::Nothing);
    assert_eq!(engine.endpoint(SERVER as usize), None);
    assert_eq!(engine.dropped, 1);
}

#[test]
fn server_keys_make_tunnels() {
    let secret = genkey();
    let peers = vec![(pubkey(genkey()).unwrap(), None), (pubkey(genkey()).unwrap(), Some([5u8; 32]))];
    let config = WireguardConfig::parse(secret, peers).expect("keys");
    let server = WireguardServer::init(config, SocketAddress::v4(0, 0, 0, 0, 51820)).expect("peers");
    for (place, peer) in server.peers.iter().enumerate() {
        let made = Tunn::new(
            server.private_key.clone(),
            peer.public_key.clone(),
            peer.preshared_key,
            Some(25),
            place as u32,
            None,
        );
        assert!(made.is_ok());
        assert_eq!(server.peer_with_key(peer.public_key.as_bytes()), Some(place));
    }
}
