use mitmproxy_wireguard::address::IpAddress;
use mitmproxy_wireguard::address::SocketAddress;
use mitmproxy_wireguard::packet::carried;
use mitmproxy_wireguard::packet::segment;
use mitmproxy_wireguard::packet::udp_packet;
use mitmproxy_wireguard::packet::Carried;
use mitmproxy_wireguard::packet::Segment;
use mitmproxy_wireguard::packet::HOP_LIMIT;
use mitmproxy_wireguard::packet::MAX_V4_PAYLOAD;
use mitmproxy_wireguard::packet::MAX_V6_PAYLOAD;
use mitmproxy_wireguard::packet::PROTOCOL_TCP;
use mitmproxy_wireguard::packet::PROTOCOL_UDP;

const PONG_V4: [u8; 32] = [
    0x45, 0x00, 0x00, 0x20, 0x00, 0x00, 0x40, 0x00, 0x40, 0x11, 0x26, 0xc3, 0x0a, 0x00, 0x00, 0x02,
    0x0a, 0x00, 0x00, 0x09, 0x00, 0x35, 0x9c, 0x40, 0x00, 0x0c, 0x70, 0x7f, 0x70, 0x6f, 0x6e, 0x67,
];

const ABC_V4: [u8; 31] = [
    0x45, 0x00, 0x00, 0x1f, 0x00, 0x00, 0x40, 0x00, 0x40, 0x11, 0xb7, 0x7a, 0xc0, 0xa8, 0x01, 0x01,
    0xc0, 0xa8, 0x01, 0x02, 0x00, 0x01, 0x00, 0x02, 0x00, 0x0b, 0xb8, 0x1e, 0x61, 0x62, 0x63,
];

const EMPTY_V4: [u8; 28] = [
    0x45, 0x00, 0x00, 0x1c, 0x00, 0x00, 0x40, 0x00, 0x40, 0x11, 0x26, 0xc7, 0x0a, 0x00, 0x00, 0x02,
    0x0a, 0x00, 0x00, 0x09, 0x00, 0x35, 0x9c, 0x40, 0x00, 0x08, 0x4f, 0x5e,
];

const PONG_V6: [u8; 52] = [
    0x60, 0x00, 0x00, 0x00, 0x00, 0x0c, 0x11, 0x40, 0xfd, 0x00, 0x00, 0x00, 0x00, 0x00, 0x00, 0x00,
    0x00, 0x00, 0x00, 0x00, 0x00, 0x00, 0x00, 0x01, 0xfd, 0x00, 0x00, 0x00, 0x00, 0x00, 0x00, 0x00,
    0x00, 0x00, 0x00, 0x00, 0x00, 0x00, 0x00, 0x02, 0x00, 0x35, 0x9c, 0x40, 0x00, 0x0c, 0x8a, 0x85,
    0x70, 0x6f, 0x6e, 0x67,
];

const SYN_V4: [u8; 40] = [
    0x45, 0x00, 0x00, 0x28, 0x00, 0x00, 0x40, 0x00, 0x40, 0x06, 0x00, 0x00, 0x0a, 0x00, 0x00, 0x09,
    0x0a, 0x00, 0x00, 0x01, 0x9c, 0x40, 0x00, 0x50, 0x00, 0x00, 0x00, 0x01, 0x00, 0x00, 0x00, 0x00,
    0x50, 0x02, 0xff, 0xff, 0x00, 0x00, 0x00, 0x00,
];

fn v6(last: u16, port: u16) -> SocketAddress {
    SocketAddress::new(IpAddress::V6([0xfd00, 0, 0, 0, 0, 0, 0, last]), port)
}

fn passes(bytes: &[u8]) -> bool {
    let mut sum: u32 = 0;
    for pair in bytes.chunks(2) {
        let low = if pair.len() == 2 { pair[1] as u32 } else { 0 };
        sum += (pair[0] as u32) * 256 + low;
    }
    while sum > 0xffff {
        sum = (sum & 0xffff) + (sum >> 16);
    }
    sum == 0xffff
}

#[test]
fn packet_constants() {
    assert_eq!(PROTOCOL_TCP, 6);
    assert_eq!(PROTOCOL_UDP, 17);
    assert_eq!(HOP_LIMIT, 64);
    assert_eq!(MAX_V4_PAYLOAD, 65535 - 20 - 8);
    assert_eq!(MAX_V6_PAYLOAD, 65535 - 8);
}

#[test]
fn udp_packet_ipv4_bytes() {
    let src = SocketAddress::v4(10, 0, 0, 2, 53);
    let dst = SocketAddress::v4(10, 0, 0, 9, 40000);
    assert_eq!(udp_packet(src, dst, b"pong"), Some(PONG_V4.to_vec()));
    assert_eq!(udp_packet(src, dst, b""), Some(EMPTY_V4.to_vec()));
    let src = SocketAddress::v4(192, 168, 1, 1, 1);
    let dst = SocketAddress::v4(192, 168, 1, 2, 2);
    assert_eq!(udp_packet(src, dst, b"abc"), Some(ABC_V4.to_vec()));
}

#[test]
fn udp_packet_ipv6_bytes() {
    assert_eq!(udp_packet(v6(1, 53), v6(2, 40000), b"pong"), Some(PONG_V6.to_vec()));
}

#[test]
fn udp_packet_needs_one_family() {
    let v4 = SocketAddress::v4(10, 0, 0, 2, 53);
    assert_eq!(udp_packet(v4, v6(2, 1), b"x"), None);
    assert_eq!(udp_packet(v6(2, 1), v4, b"x"), None);
}

#[test]
fn udp_packet_payload_limits() {
    let src = SocketAddress::v4(10, 0, 0, 2, 53);
    let dst = SocketAddress::v4(10, 0, 0, 9, 40000);
    let most = vec![0xabu8; MAX_V4_PAYLOAD];
    let packet = udp_packet(src, dst, &most).expect("fits");
    assert_eq!(packet.len(), 65535);
    assert_eq!(&packet[2..4], &[0xff, 0xff]);
    assert_eq!(udp_packet(src, dst, &vec![0u8; MAX_V4_PAYLOAD + 1]), None);
    let most = vec![0xabu8; MAX_V6_PAYLOAD];
    let packet = udp_packet(v6(1, 1), v6(2, 2), &most).expect("fits");
    assert_eq!(packet.len(), 40 + 65535);
    assert_eq!(&packet[4..6], &[0xff, 0xff]);
    assert_eq!(udp_packet(v6(1, 1), v6(2, 2), &vec![0u8; MAX_V6_PAYLOAD + 1]), None);
}

#[test]
fn written_checksums_pass_the_receivers_test() {
    for len in [0usize, 1, 2, 3, 100, 1399, 1400] {
        let payload: Vec<u8> = (0..len).map(|i| (i * 31 + 7) as u8).collect();
        let src = SocketAddress::v4(10, 1, 2, 3, 5000 + len as u16);
        let dst = SocketAddress::v4(172, 16, 0, 9, 53);
        let packet = udp_packet(src, dst, &payload).unwrap();
        assert!(passes(&packet[..20]));
        let mut pseudo = Vec::new();
        pseudo.extend_from_slice(&packet[12..20]);
        pseudo.extend_from_slice(&[0, 17]);
        pseudo.extend_from_slice(&packet[24..26]);
        pseudo.extend_from_slice(&packet[20..]);
        assert!(passes(&pseudo));
        let packet = udp_packet(v6(1, 7), v6(2, 9), &payload).unwrap();
        let mut pseudo = Vec::new();
        pseudo.extend_from_slice(&packet[8..40]);
        pseudo.extend_from_slice(&[0, 0]);
        pseudo.extend_from_slice(&packet[44..46]);
        pseudo.extend_from_slice(&[0, 0, 0, 17]);
        pseudo.extend_from_slice(&packet[40..]);
        assert!(passes(&pseudo));
    }
}

#[test]
fn udp_checksum_zero_is_written_as_all_ones() {
    // The words of this datagram and its pseudo header add up to a multiple of 65535.
    let src = SocketAddress::v4(0, 0, 0, 0, 0);
    let dst = SocketAddress::v4(0, 0, 0, 0, 0);
    let payload = [0xff, 0xda];
    let packet = udp_packet(src, dst, &payload).unwrap();
    assert_eq!(&packet[26..28], &[0xff, 0xff]);
}

#[test]
fn written_packet_is_read_back() {
    let src = SocketAddress::v4(10, 0, 0, 2, 53);
    let dst = SocketAddress::v4(10, 0, 0, 9, 40000);
    assert_eq!(
        segment(&udp_packet(src, dst, b"pong").unwrap()),
        Segment::Udp { src_addr: src, dst_addr: dst, payload: b"pong".to_vec() }
    );
    assert_eq!(
        segment(&udp_packet(v6(1, 53), v6(2, 40000), b"").unwrap()),
        Segment::Udp { src_addr: v6(1, 53), dst_addr: v6(2, 40000), payload: Vec::new() }
    );
}

#[test]
fn segment_of_a_udp_datagram_to_any_destination() {
    assert_eq!(
        segment(&PONG_V4),
        Segment::Udp {
            src_addr: SocketAddress::v4(10, 0, 0, 2, 53),
            dst_addr: SocketAddress::v4(10, 0, 0, 9, 40000),
            payload: b"pong".to_vec(),
        }
    );
    assert_eq!(
        segment(&PONG_V6),
        Segment::Udp { src_addr: v6(1, 53), dst_addr: v6(2, 40000), payload: b"pong".to_vec() }
    );
}

#[test]
fn segment_of_a_syn() {
    assert_eq!(
        segment(&SYN_V4),
        Segment::TcpSyn {
            src_addr: SocketAddress::v4(10, 0, 0, 9, 40000),
            dst_addr: SocketAddress::v4(10, 0, 0, 1, 80),
        }
    );
}

#[test]
fn segment_of_other_tcp_flags() {
    let mut packet = SYN_V4;
    for (flags, syn) in [(0x02u8, true), (0x12, false), (0x10, false), (0x11, false), (0xc2, true)]
    {
        packet[33] = flags;
        let found = segment(&packet);
        assert_eq!(matches!(found, Segment::TcpSyn { .. }), syn, "flags {:#x}", flags);
        assert_eq!(matches!(found, Segment::Tcp { .. }), !syn, "flags {:#x}", flags);
    }
}

#[test]
fn segment_skips_ipv4_options() {
    let mut packet = vec![0x46, 0, 0, 44, 0, 0, 0x40, 0, 64, 6, 0, 0, 10, 0, 0, 9, 10, 0, 0, 1];
    packet.extend_from_slice(&[1, 1, 1, 0]);
    packet.extend_from_slice(&SYN_V4[20..]);
    assert_eq!(
        carried(&packet),
        Some(Carried {
            protocol: 6,
            src: IpAddress::V4([10, 0, 0, 9]),
            dst: IpAddress::V4([10, 0, 0, 1]),
            start: 24,
            end: 44,
        })
    );
    assert!(matches!(segment(&packet), Segment::TcpSyn { .. }));
}

#[test]
fn segment_ignores_bytes_behind_the_packet() {
    let mut packet = PONG_V4.to_vec();
    packet.extend_from_slice(&[9, 9, 9]);
    assert_eq!(segment(&packet), segment(&PONG_V4));
}

#[test]
fn segment_of_what_is_no_packet() {
    assert_eq!(segment(&[]), Segment::Other);
    assert_eq!(segment(&[0x45; 19]), Segment::Other);
    assert_eq!(segment(&PONG_V4[..31]), Segment::Other);
    assert_eq!(segment(&PONG_V6[..51]), Segment::Other);
    assert_eq!(segment(&PONG_V6[..39]), Segment::Other);
    let mut packet = PONG_V4;
    packet[0] = 0x55;
    assert_eq!(segment(&packet), Segment::Other);
    packet[0] = 0x44;
    assert_eq!(segment(&packet), Segment::Other);
    let mut packet = PONG_V4;
    packet[9] = 1;
    assert_eq!(segment(&packet), Segment::Other);
}

#[test]
fn segment_of_a_fragment() {
    let mut packet = PONG_V4;
    packet[6] = 0x20;
    assert_eq!(segment(&packet), Segment::Other);
    packet[6] = 0x00;
    packet[7] = 0x01;
    assert_eq!(segment(&packet), Segment::Other);
    packet[7] = 0x00;
    assert!(matches!(segment(&packet), Segment::Udp { .. }));
}

#[test]
fn segment_of_a_udp_length_that_does_not_fit() {
    let mut packet = PONG_V4;
    packet[25] = 13;
    assert_eq!(segment(&packet), Segment::Other);
    packet[25] = 7;
    assert_eq!(segment(&packet), Segment::Other);
    packet[25] = 10;
    assert_eq!(
        segment(&packet),
        Segment::Udp {
            src_addr: SocketAddress::v4(10, 0, 0, 2, 53),
            dst_addr: SocketAddress::v4(10, 0, 0, 9, 40000),
            payload: b"po".to_vec(),
        }
    );
}

#[test]
fn segment_of_a_short_tcp_header() {
    let mut packet = SYN_V4[..39].to_vec();
    packet[3] = 39;
    assert_eq!(segment(&packet), Segment::Other);
}
