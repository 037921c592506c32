use smoltcp::wire::IpAddress as WireAddress;
use smoltcp::wire::IpProtocol;
use smoltcp::wire::Ipv4Packet;
use smoltcp::wire::Ipv6Packet;
use smoltcp::wire::UdpPacket;

use mitmproxy_wireguard::address::IpAddress;
use mitmproxy_wireguard::address::SocketAddress;
use mitmproxy_wireguard::packet::udp_packet;
use mitmproxy_wireguard::packet::HOP_LIMIT;

fn payload(len: usize) -> Vec<u8> {
    (0..len).map(|i| (i * 37 + 11) as u8).collect()
}

#[test]
fn stack_reads_a_written_ipv4_packet() {
    for len in [0usize, 1, 2, 5, 511, 1392] {
        let data = payload(len);
        let src = SocketAddress::v4(10, 0, 0, 2, 53);
        let dst = SocketAddress::v4(10, 0, 0, 9, 40000 + len as u16);
        let bytes = udp_packet(src, dst, &data).unwrap();
        let ip = Ipv4Packet::new_checked(&bytes[..]).expect("an IPv4 packet");
        assert!(ip.verify_checksum());
        assert!(ip.dont_frag());
        assert_eq!(ip.hop_limit(), HOP_LIMIT);
        assert_eq!(ip.protocol(), IpProtocol::Udp);
        assert_eq!(ip.src_addr().as_bytes(), &[10, 0, 0, 2]);
        assert_eq!(ip.dst_addr().as_bytes(), &[10, 0, 0, 9]);
        let udp = UdpPacket::new_checked(ip.payload()).expect("a UDP datagram");
        assert!(udp.verify_checksum(
            &WireAddress::from(ip.src_addr()),
            &WireAddress::from(ip.dst_addr())
        ));
        assert_eq!(udp.src_port(), 53);
        assert_eq!(udp.dst_port(), 40000 + len as u16);
        assert_eq!(udp.payload(), data.as_slice());
    }
}

#[test]
fn stack_reads_a_written_ipv6_packet() {
    for len in [0usize, 1, 2, 5, 511, 1372] {
        let data = payload(len);
        let src = SocketAddress::new(IpAddress::V6([0xfd00, 0, 0, 0, 0, 0, 0, 2]), 53);
        let dst = SocketAddress::new(IpAddress::V6([0x2001, 0xdb8, 1, 2, 3, 4, 5, 6]), 40000);
        let bytes = udp_packet(src, dst, &data).unwrap();
        let ip = Ipv6Packet::new_checked(&bytes[..]).expect("an IPv6 packet");
        assert_eq!(ip.hop_limit(), HOP_LIMIT);
        assert_eq!(ip.next_header(), IpProtocol::Udp);
        assert_eq!(ip.src_addr().as_bytes()[..2], [0xfd, 0x00]);
        assert_eq!(ip.dst_addr().as_bytes()[..4], [0x20, 0x01, 0x0d, 0xb8]);
        let udp = UdpPacket::new_checked(ip.payload()).expect("a UDP datagram");
        assert!(udp.verify_checksum(
            &WireAddress::from(ip.src_addr()),
            &WireAddress::from(ip.dst_addr())
        ));
        assert_eq!(udp.src_port(), 53);
        assert_eq!(udp.dst_port(), 40000);
        assert_eq!(udp.payload(), data.as_slice());
    }
}
