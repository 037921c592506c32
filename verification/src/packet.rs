//! IP packets as the stack adapter reads and writes them: which packets open a TCP
//! connection, which carry a UDP datagram and what it holds, and how a UDP datagram is
//! put into a packet of its own.
//!
//! Packets are read by their header fields alone. Checksums are written but not
//! looked at when reading: what reaches the adapter has passed the tunnel, which lets
//! nothing through that was changed on the way.

use crate::address::IpAddress;
use crate::address::SocketAddress;
use vstd::prelude::*;
use vstd::slice::slice_subrange;
use vstd::slice::slice_to_vec;

verus! {

/// The protocol number of TCP.
pub const PROTOCOL_TCP: u8 = 6;

/// The protocol number of UDP.
pub const PROTOCOL_UDP: u8 = 17;

/// The hop limit that written packets start with.
pub const HOP_LIMIT: u8 = 64;

/// The largest payload of a UDP datagram in an IPv4 packet.
pub const MAX_V4_PAYLOAD: usize = 65507;

/// The largest payload of a UDP datagram in an IPv6 packet.
pub const MAX_V6_PAYLOAD: usize = 65527;

/// The number that two bytes at `at` stand for, the first byte counting most.
pub open spec fn be16(bytes: Seq<u8>, at: int) -> int {
    bytes[at] * 256 + bytes[at + 1]
}

/// The IPv4 address whose four octets stand at `at`.
pub open spec fn v4_at(bytes: Seq<u8>, at: int) -> IpAddress {
    IpAddress::V4([bytes[at], bytes[at + 1], bytes[at + 2], bytes[at + 3]])
}

/// The IPv6 address whose eight groups stand at `at`.
pub open spec fn v6_at(bytes: Seq<u8>, at: int) -> IpAddress {
    IpAddress::V6(
        [
            be16(bytes, at) as u16,
            be16(bytes, at + 2) as u16,
            be16(bytes, at + 4) as u16,
            be16(bytes, at + 6) as u16,
            be16(bytes, at + 8) as u16,
            be16(bytes, at + 10) as u16,
            be16(bytes, at + 12) as u16,
            be16(bytes, at + 14) as u16,
        ],
    )
}

/// True of an IPv4 packet that is whole: the header, with its options, and the total
/// length fit the bytes at hand, and the packet is no fragment.
pub open spec fn is_ipv4(packet: Seq<u8>) -> bool {
    &&& packet.len() >= 20
    &&& packet[0] / 16 == 4
    &&& packet[0] % 16 >= 5
    &&& (packet[0] % 16) * 4 <= be16(packet, 2) <= packet.len()
    &&& be16(packet, 6) % 0x4000 == 0
}

/// True of an IPv6 packet whose payload fits the bytes at hand.
pub open spec fn is_ipv6(packet: Seq<u8>) -> bool {
    &&& packet.len() >= 40
    &&& packet[0] / 16 == 6
    &&& 40 + be16(packet, 4) <= packet.len()
}

/// What an IP packet carries: the protocol, the two addresses, and where in the packet
/// the carried bytes start and end.
#[derive(Clone, Copy, Debug, PartialEq, Eq)]
pub struct Carried {
    pub protocol: u8,
    pub src: IpAddress,
    pub dst: IpAddress,
    pub start: usize,
    pub end: usize,
}

/// What a packet carries, if it is a whole IPv4 or IPv6 packet.
pub open spec fn carried_spec(packet: Seq<u8>) -> Option<Carried> {
    if is_ipv4(packet) {
        Some(
            Carried {
                protocol: packet[9],
                src: v4_at(packet, 12),
                dst: v4_at(packet, 16),
                start: ((packet[0] % 16) * 4) as usize,
                end: be16(packet, 2) as usize,
            },
        )
    } else if is_ipv6(packet) {
        Some(
            Carried {
                protocol: packet[6],
                src: v6_at(packet, 8),
                dst: v6_at(packet, 24),
                start: 40,
                end: (40 + be16(packet, 4)) as usize,
            },
        )
    } else {
        None
    }
}

/// True of the flags of a TCP segment that opens a connection: SYN without ACK.
pub open spec fn is_syn(flags: u8) -> bool {
    (flags / 2) % 2 == 1 && (flags / 16) % 2 == 0
}

/// What the stack adapter makes of a packet.
#[derive(Clone, Debug, PartialEq, Eq)]
pub enum Segment {
    /// A TCP segment that opens a connection from `src_addr` to `dst_addr`.
    TcpSyn { src_addr: SocketAddress, dst_addr: SocketAddress },
    /// Any other TCP segment.
    Tcp { src_addr: SocketAddress, dst_addr: SocketAddress },
    /// A UDP datagram.
    Udp { src_addr: SocketAddress, dst_addr: SocketAddress, payload: Vec<u8> },
    /// Anything else: no whole IP packet, a fragment, another protocol, or a header
    /// cut short.
    Other,
}

/// The mathematical value of a [`Segment`].
pub enum SegmentView {
    TcpSyn { src_addr: SocketAddress, dst_addr: SocketAddress },
    Tcp { src_addr: SocketAddress, dst_addr: SocketAddress },
    Udp { src_addr: SocketAddress, dst_addr: SocketAddress, payload: Seq<u8> },
    Other,
}

impl View for Segment {
    type V = SegmentView;

    open spec fn view(&self) -> SegmentView {
        match *self {
            Segment::TcpSyn { src_addr, dst_addr } => SegmentView::TcpSyn { src_addr, dst_addr },
            Segment::Tcp { src_addr, dst_addr } => SegmentView::Tcp { src_addr, dst_addr },
            Segment::Udp { src_addr, dst_addr, payload } => SegmentView::Udp {
                src_addr,
                dst_addr,
                payload: payload@,
            },
            Segment::Other => SegmentView::Other,
        }
    }
}

/// The address made of what a packet carries and the port at `at`.
pub open spec fn endpoint_at(packet: Seq<u8>, ip: IpAddress, at: int) -> SocketAddress {
    SocketAddress { ip, port: be16(packet, at) as u16 }
}

/// What the stack adapter makes of a packet. A TCP segment needs its 20 bytes of
/// header; a UDP datagram needs its 8, and a length that covers them and fits.
pub open spec fn segment_of(packet: Seq<u8>) -> SegmentView {
    match carried_spec(packet) {
        None => SegmentView::Other,
        Some(c) => if c.protocol == PROTOCOL_TCP && c.end - c.start >= 20 {
            if is_syn(packet[c.start + 13]) {
                SegmentView::TcpSyn {
                    src_addr: endpoint_at(packet, c.src, c.start as int),
                    dst_addr: endpoint_at(packet, c.dst, c.start + 2),
                }
            } else {
                SegmentView::Tcp {
                    src_addr: endpoint_at(packet, c.src, c.start as int),
                    dst_addr: endpoint_at(packet, c.dst, c.start + 2),
                }
            }
        } else if c.protocol == PROTOCOL_UDP && c.end - c.start >= 8 && 8 <= be16(
            packet,
            c.start + 4,
        ) <= c.end - c.start {
            SegmentView::Udp {
                src_addr: endpoint_at(packet, c.src, c.start as int),
                dst_addr: endpoint_at(packet, c.dst, c.start + 2),
                payload: packet.subrange(c.start + 8, c.start + be16(packet, c.start + 4)),
            }
        } else {
            SegmentView::Other
        },
    }
}

/// Reads the number that two bytes stand for.
fn read_be16(bytes: &[u8], at: usize) -> (value: u16)
    requires
        at + 1 < bytes@.len(),
    ensures
        value == be16(bytes@, at as int),
{
    (bytes[at] as u16) * 256 + (bytes[at + 1] as u16)
}

/// Reads an IPv4 address.
fn read_v4(bytes: &[u8], at: usize) -> (ip: IpAddress)
    requires
        at + 4 <= bytes@.len(),
    ensures
        ip == v4_at(bytes@, at as int),
{
    IpAddress::V4([bytes[at], bytes[at + 1], bytes[at + 2], bytes[at + 3]])
}

/// Reads an IPv6 address.
fn read_v6(bytes: &[u8], at: usize) -> (ip: IpAddress)
    requires
        at + 16 <= bytes@.len(),
    ensures
        ip == v6_at(bytes@, at as int),
{
    assert(bytes.len() == bytes@.len());
    let g0 = read_be16(bytes, at);
    let g1 = read_be16(bytes, at + 2);
    let g2 = read_be16(bytes, at + 4);
    let g3 = read_be16(bytes, at + 6);
    let g4 = read_be16(bytes, at + 8);
    let g5 = read_be16(bytes, at + 10);
    let g6 = read_be16(bytes, at + 12);
    let g7 = read_be16(bytes, at + 14);
    IpAddress::V6([g0, g1, g2, g3, g4, g5, g6, g7])
}

/// Finds what a packet carries, if it is a whole IPv4 or IPv6 packet.
pub fn carried(packet: &[u8]) -> (found: Option<Carried>)
    ensures
        found == carried_spec(packet@),
{
    if packet.len() < 20 {
        return None;
    }
    let version = packet[0] / 16;
    if version == 4 {
        let header = (packet[0] % 16) as usize * 4;
        let total = read_be16(packet, 2) as usize;
        let fragment = read_be16(packet, 6);
        if header < 20 || header > total || total > packet.len() || fragment % 0x4000 != 0 {
            return None;
        }
        Some(
            Carried {
                protocol: packet[9],
                src: read_v4(packet, 12),
                dst: read_v4(packet, 16),
                start: header,
                end: total,
            },
        )
    } else if version == 6 {
        if packet.len() < 40 {
            return None;
        }
        let length = read_be16(packet, 4) as usize;
        if length > packet.len() - 40 {
            return None;
        }
        Some(
            Carried {
                protocol: packet[6],
                src: read_v6(packet, 8),
                dst: read_v6(packet, 24),
                start: 40,
                end: 40 + length,
            },
        )
    } else {
        None
    }
}

/// Says what a packet is to the stack adapter: the start of a TCP connection, with the
/// addresses it runs between; another TCP segment; a UDP datagram, with its addresses
/// and its payload; or none of these.
pub fn segment(packet: &[u8]) -> (segment: Segment)
    ensures
        segment@ == segment_of(packet@),
{
    let c = match carried(packet) {
        Some(c) => c,
        None => {
            return Segment::Other;
        },
    };
    let size = c.end - c.start;
    if c.protocol == PROTOCOL_TCP && size >= 20 {
        let src_addr = SocketAddress { ip: c.src, port: read_be16(packet, c.start) };
        let dst_addr = SocketAddress { ip: c.dst, port: read_be16(packet, c.start + 2) };
        let flags = packet[c.start + 13];
        if (flags / 2) % 2 == 1 && (flags / 16) % 2 == 0 {
            Segment::TcpSyn { src_addr, dst_addr }
        } else {
            Segment::Tcp { src_addr, dst_addr }
        }
    } else if c.protocol == PROTOCOL_UDP && size >= 8 {
        let length = read_be16(packet, c.start + 4) as usize;
        if length < 8 || length > size {
            return Segment::Other;
        }
        let src_addr = SocketAddress { ip: c.src, port: read_be16(packet, c.start) };
        let dst_addr = SocketAddress { ip: c.dst, port: read_be16(packet, c.start + 2) };
        let payload = slice_to_vec(slice_subrange(packet, c.start + 8, c.start + length));
        Segment::Udp { src_addr, dst_addr, payload }
    } else {
        Segment::Other
    }
}

/// The bytes of an address, as they stand in a packet.
pub open spec fn ip_bytes(ip: IpAddress) -> Seq<u8> {
    match ip {
        IpAddress::V4(octets) => octets@,
        IpAddress::V6(groups) => be16_bytes(groups[0] as int) + be16_bytes(groups[1] as int)
            + be16_bytes(groups[2] as int) + be16_bytes(groups[3] as int) + be16_bytes(
            groups[4] as int,
        ) + be16_bytes(groups[5] as int) + be16_bytes(groups[6] as int) + be16_bytes(
            groups[7] as int,
        ),
    }
}

/// The two bytes that stand for a number below 65536, the first byte counting most.
pub open spec fn be16_bytes(value: int) -> Seq<u8> {
    seq![(value / 256) as u8, (value % 256) as u8]
}

/// The sum of the 16-bit words of some bytes; a last byte without a partner counts as
/// the first byte of a word.
pub open spec fn word_sum(bytes: Seq<u8>) -> nat
    decreases bytes.len(),
{
    if bytes.len() == 0 {
        0
    } else if bytes.len() == 1 {
        bytes[0] as nat * 256
    } else {
        (bytes[0] as nat * 256 + bytes[1] as nat) + word_sum(bytes.skip(2))
    }
}

/// A sum folded to 16 bits: what goes beyond 16 bits is added back in until nothing
/// does.
pub open spec fn fold16(n: nat) -> nat
    decreases n,
{
    if n < 0x10000 {
        n
    } else {
        fold16(n % 0x10000 + n / 0x10000)
    }
}

/// The Internet checksum of bytes whose words add up to `sum`.
pub open spec fn checksum_of(sum: nat) -> int {
    0xffff - fold16(sum)
}

/// The header of a UDP datagram.
pub open spec fn udp_header(src_port: u16, dst_port: u16, length: int, checksum: int) -> Seq<u8> {
    be16_bytes(src_port as int) + be16_bytes(dst_port as int) + be16_bytes(length) + be16_bytes(
        checksum,
    )
}

/// What stands in for the IPv4 header when the checksum of a UDP datagram is taken.
pub open spec fn v4_pseudo_header(src: Seq<u8>, dst: Seq<u8>, length: int) -> Seq<u8> {
    src + dst + seq![0u8, PROTOCOL_UDP] + be16_bytes(length)
}

/// What stands in for the IPv6 header when the checksum of a UDP datagram is taken.
pub open spec fn v6_pseudo_header(src: Seq<u8>, dst: Seq<u8>, length: int) -> Seq<u8> {
    src + dst + seq![0u8, 0u8] + be16_bytes(length) + seq![0u8, 0u8, 0u8, PROTOCOL_UDP]
}

/// The checksum of a UDP datagram: that of the pseudo header, the header with no
/// checksum yet, and the payload; where it comes out as zero, all ones are written.
pub open spec fn udp_checksum(pseudo: Seq<u8>, header: Seq<u8>, payload: Seq<u8>) -> int {
    let sum = checksum_of(word_sum(pseudo) + word_sum(header) + word_sum(payload));
    if sum == 0 {
        0xffff
    } else {
        sum
    }
}

/// An IPv4 header without options for a UDP datagram: no fragment and not to be made
/// one, [`HOP_LIMIT`] hops to live.
pub open spec fn v4_header(src: Seq<u8>, dst: Seq<u8>, total: int, checksum: int) -> Seq<u8> {
    seq![0x45u8, 0u8] + be16_bytes(total) + seq![0u8, 0u8, 0x40u8, 0u8, HOP_LIMIT, PROTOCOL_UDP]
        + be16_bytes(checksum) + src + dst
}

/// An IPv6 header for a UDP datagram: no traffic class, no flow label, [`HOP_LIMIT`]
/// hops to live.
pub open spec fn v6_header(src: Seq<u8>, dst: Seq<u8>, length: int) -> Seq<u8> {
    seq![0x60u8, 0u8, 0u8, 0u8] + be16_bytes(length) + seq![PROTOCOL_UDP, HOP_LIMIT] + src + dst
}

/// The IPv4 packet that carries a UDP datagram.
pub open spec fn v4_udp_packet(src: SocketAddress, dst: SocketAddress, payload: Seq<u8>) -> Seq<u8> {
    let s = ip_bytes(src.ip);
    let d = ip_bytes(dst.ip);
    let length = 8 + payload.len() as int;
    v4_header(s, d, 20 + length, checksum_of(word_sum(v4_header(s, d, 20 + length, 0))))
        + udp_header(
        src.port,
        dst.port,
        length,
        udp_checksum(
            v4_pseudo_header(s, d, length),
            udp_header(src.port, dst.port, length, 0),
            payload,
        ),
    ) + payload
}

/// The IPv6 packet that carries a UDP datagram.
pub open spec fn v6_udp_packet(src: SocketAddress, dst: SocketAddress, payload: Seq<u8>) -> Seq<u8> {
    let s = ip_bytes(src.ip);
    let d = ip_bytes(dst.ip);
    let length = 8 + payload.len() as int;
    v6_header(s, d, length) + udp_header(
        src.port,
        dst.port,
        length,
        udp_checksum(
            v6_pseudo_header(s, d, length),
            udp_header(src.port, dst.port, length, 0),
            payload,
        ),
    ) + payload
}

/// The packet that carries a UDP datagram from `src` to `dst`. There is none where the
/// two addresses are not of one family, and none where the payload is beyond what a
/// datagram of that family holds.
pub open spec fn udp_packet_spec(src: SocketAddress, dst: SocketAddress, payload: Seq<u8>) -> Option<
    Seq<u8>,
> {
    if src.ip is V4 && dst.ip is V4 && payload.len() <= MAX_V4_PAYLOAD {
        Some(v4_udp_packet(src, dst, payload))
    } else if src.ip is V6 && dst.ip is V6 && payload.len() <= MAX_V6_PAYLOAD {
        Some(v6_udp_packet(src, dst, payload))
    } else {
        None
    }
}

/// Adds up the 16-bit words of some bytes.
fn sum_words(bytes: &[u8]) -> (sum: u64)
    requires
        bytes@.len() <= 0x10000,
    ensures
        sum == word_sum(bytes@),
        sum <= 0x1_0000_0000,
{
    let len = bytes.len();
    let mut sum: u64 = 0;
    let mut i: usize = 0;
    assert(bytes@.skip(0) =~= bytes@);
    while i + 1 < len
        invariant
            len == bytes@.len(),
            len <= 0x10000,
            i <= len,
            i % 2 == 0,
            sum <= i * 0x8000,
            sum + word_sum(bytes@.skip(i as int)) == word_sum(bytes@),
        decreases len - i,
    {
        assert(bytes@.skip(i as int).skip(2) =~= bytes@.skip(i + 2));
        sum = sum + (bytes[i] as u64) * 256 + (bytes[i + 1] as u64);
        i = i + 2;
    }
    if i < len {
        assert(bytes@.skip(i as int).len() == 1);
        sum = sum + (bytes[i] as u64) * 256;
    } else {
        assert(bytes@.skip(i as int).len() == 0);
    }
    sum
}

/// Folds a sum to 16 bits.
fn fold(sum: u64) -> (folded: u16)
    ensures
        folded == fold16(sum as nat),
{
    let mut n: u64 = sum;
    while n >= 0x10000
        invariant
            fold16(n as nat) == fold16(sum as nat),
        decreases n,
    {
        n = n % 0x10000 + n / 0x10000;
    }
    n as u16
}

/// Writes a number as two bytes at the end of some bytes.
fn push_be16(out: &mut Vec<u8>, value: u16)
    ensures
        final(out)@ == old(out)@ + be16_bytes(value as int),
{
    out.push((value / 256) as u8);
    out.push((value % 256) as u8);
    assert(out@ =~= old(out)@ + be16_bytes(value as int));
}

/// Writes bytes at the end of some bytes.
fn push_bytes(out: &mut Vec<u8>, bytes: &[u8])
    ensures
        final(out)@ == old(out)@ + bytes@,
{
    out.extend_from_slice(bytes);
    assert(out@ =~= old(out)@ + bytes@);
}

/// The bytes of an address, as they stand in a packet.
fn ip_to_bytes(ip: &IpAddress) -> (bytes: Vec<u8>)
    ensures
        bytes@ == ip_bytes(*ip),
{
    let mut bytes: Vec<u8> = Vec::new();
    match ip {
        IpAddress::V4(octets) => {
            bytes.push(octets[0]);
            bytes.push(octets[1]);
            bytes.push(octets[2]);
            bytes.push(octets[3]);
            assert(bytes@ =~= octets@);
        },
        IpAddress::V6(groups) => {
            push_be16(&mut bytes, groups[0]);
            push_be16(&mut bytes, groups[1]);
            push_be16(&mut bytes, groups[2]);
            push_be16(&mut bytes, groups[3]);
            push_be16(&mut bytes, groups[4]);
            push_be16(&mut bytes, groups[5]);
            push_be16(&mut bytes, groups[6]);
            push_be16(&mut bytes, groups[7]);
            assert(bytes@ =~= ip_bytes(*ip));
        },
    }
    bytes
}

/// The header of a UDP datagram.
fn make_udp_header(src_port: u16, dst_port: u16, length: u16, checksum: u16) -> (header: Vec<u8>)
    ensures
        header@ == udp_header(src_port, dst_port, length as int, checksum as int),
{
    let mut header: Vec<u8> = Vec::new();
    push_be16(&mut header, src_port);
    push_be16(&mut header, dst_port);
    push_be16(&mut header, length);
    push_be16(&mut header, checksum);
    assert(header@ =~= udp_header(src_port, dst_port, length as int, checksum as int));
    header
}

/// An IPv4 header for a UDP datagram.
fn make_v4_header(src: &[u8], dst: &[u8], total: u16, checksum: u16) -> (header: Vec<u8>)
    ensures
        header@ == v4_header(src@, dst@, total as int, checksum as int),
{
    let mut header: Vec<u8> = Vec::new();
    header.push(0x45);
    header.push(0);
    push_be16(&mut header, total);
    header.push(0);
    header.push(0);
    header.push(0x40);
    header.push(0);
    header.push(HOP_LIMIT);
    header.push(PROTOCOL_UDP);
    push_be16(&mut header, checksum);
    push_bytes(&mut header, src);
    push_bytes(&mut header, dst);
    assert(header@ =~= v4_header(src@, dst@, total as int, checksum as int));
    header
}

/// The checksum of a UDP datagram.
fn make_udp_checksum(pseudo: &[u8], header: &[u8], payload: &[u8]) -> (checksum: u16)
    requires
        pseudo@.len() <= 0x10000,
        header@.len() <= 0x10000,
        payload@.len() <= 0x10000,
    ensures
        checksum == udp_checksum(pseudo@, header@, payload@),
{
    let sum = sum_words(pseudo) + sum_words(header) + sum_words(payload);
    let folded = fold(sum);
    if folded == 0xffff {
        0xffff
    } else {
        0xffff - folded
    }
}

/// Puts a UDP datagram from `src_addr` to `dst_addr` into an IP packet of its own.
/// There is no packet for two addresses of different families, nor for a payload
/// beyond what a datagram of the family holds.
pub fn udp_packet(src_addr: SocketAddress, dst_addr: SocketAddress, payload: &[u8]) -> (packet:
    Option<Vec<u8>>)
    ensures
        match packet {
            Some(bytes) => udp_packet_spec(src_addr, dst_addr, payload@) == Some(bytes@),
            None => udp_packet_spec(src_addr, dst_addr, payload@) is None,
        },
{
    let v4 = src_addr.is_ipv4();
    if v4 != dst_addr.is_ipv4() {
        return None;
    }
    if payload.len() > (if v4 {
        MAX_V4_PAYLOAD
    } else {
        MAX_V6_PAYLOAD
    }) {
        return None;
    }
    let s = ip_to_bytes(&src_addr.ip);
    let d = ip_to_bytes(&dst_addr.ip);
    let length = (8 + payload.len()) as u16;
    let bare = make_udp_header(src_addr.port, dst_addr.port, length, 0);
    let mut pseudo: Vec<u8> = Vec::new();
    let mut packet: Vec<u8>;
    if v4 {
        push_bytes(&mut pseudo, s.as_slice());
        push_bytes(&mut pseudo, d.as_slice());
        pseudo.push(0);
        pseudo.push(PROTOCOL_UDP);
        push_be16(&mut pseudo, length);
        assert(pseudo@ =~= v4_pseudo_header(s@, d@, length as int));
        let total = length + 20;
        let blank = make_v4_header(s.as_slice(), d.as_slice(), total, 0);
        let check = 0xffff - fold(sum_words(blank.as_slice()));
        packet = make_v4_header(s.as_slice(), d.as_slice(), total, check);
    } else {
        push_bytes(&mut pseudo, s.as_slice());
        push_bytes(&mut pseudo, d.as_slice());
        pseudo.push(0);
        pseudo.push(0);
        push_be16(&mut pseudo, length);
        pseudo.push(0);
        pseudo.push(0);
        pseudo.push(0);
        pseudo.push(PROTOCOL_UDP);
        assert(pseudo@ =~= v6_pseudo_header(s@, d@, length as int));
        packet = Vec::new();
        packet.push(0x60);
        packet.push(0);
        packet.push(0);
        packet.push(0);
        push_be16(&mut packet, length);
        packet.push(PROTOCOL_UDP);
        packet.push(HOP_LIMIT);
        push_bytes(&mut packet, s.as_slice());
        push_bytes(&mut packet, d.as_slice());
        assert(packet@ =~= v6_header(s@, d@, length as int));
    }
    let check = make_udp_checksum(pseudo.as_slice(), bare.as_slice(), payload);
    let header = make_udp_header(src_addr.port, dst_addr.port, length, check);
    push_bytes(&mut packet, header.as_slice());
    push_bytes(&mut packet, payload);
    Some(packet)
}

/// A folded sum has 16 bits, is zero only for the sum zero, and differs from the sum by
/// a multiple of 65535.
pub proof fn lemma_fold16(n: nat)
    ensures
        fold16(n) < 0x10000,
        n > 0 ==> fold16(n) > 0,
        fold16(n) % 0xffff == n % 0xffff,
    decreases n,
{
    if n >= 0x10000 {
        let q = n / 0x10000;
        let r = n % 0x10000;
        lemma_fold16(q + r);
        assert(n == 0xffff * q + (q + r));
        vstd::arithmetic::div_mod::lemma_mod_multiples_vanish(q as int, (q + r) as int, 0xffff);
    }
}

/// The words of two runs of bytes add up, where the first run has whole words only.
pub proof fn lemma_word_sum_of_two(a: Seq<u8>, b: Seq<u8>)
    requires
        a.len() % 2 == 0,
    ensures
        word_sum(a + b) == word_sum(a) + word_sum(b),
    decreases a.len(),
{
    if a.len() == 0 {
        assert(a + b =~= b);
    } else {
        assert((a + b).skip(2) =~= a.skip(2) + b);
        lemma_word_sum_of_two(a.skip(2), b);
    }
}

/// The two bytes of a number are one word, the number itself.
pub proof fn lemma_word_sum_of_be16(value: int)
    requires
        0 <= value < 0x10000,
    ensures
        word_sum(be16_bytes(value)) == value,
{
    let bytes = be16_bytes(value);
    assert(bytes.len() == 2);
    assert(bytes[0] == value / 256);
    assert(bytes[1] == value % 256);
    assert(bytes.skip(2) =~= Seq::<u8>::empty());
    assert(word_sum(bytes.skip(2)) == 0);
}

/// What the receiver of a checksum finds: bytes whose words add up to `sum` without
/// the checksum add up, with the checksum, to something that folds to all ones.
pub proof fn lemma_checksum_passes(sum: nat)
    requires
        sum > 0,
    ensures
        0 <= checksum_of(sum) < 0xffff,
        fold16((sum + checksum_of(sum)) as nat) == 0xffff,
        fold16(sum + 0xffff) == fold16(sum),
{
    lemma_fold16(sum);
    let with = (sum + checksum_of(sum)) as nat;
    lemma_fold16(with);
    lemma_fold16(sum + 0xffff);
    assert(with % 0xffff == 0) by {
        let f = fold16(sum) as int;
        let k = sum as int / 0xffff;
        assert(sum as int == 0xffff * k + sum as int % 0xffff);
        if f == 0xffff {
            assert(sum as int % 0xffff == 0);
            assert(with as int == 0xffff * k);
            vstd::arithmetic::div_mod::lemma_mod_multiples_vanish(k, 0, 0xffff);
        } else {
            assert(sum as int % 0xffff == f);
            assert(with as int == 0xffff * (k + 1) + 0);
            vstd::arithmetic::div_mod::lemma_mod_multiples_vanish(k + 1, 0, 0xffff);
        }
    }
    assert((sum + 0xffff) % 0xffff == sum % 0xffff) by {
        vstd::arithmetic::div_mod::lemma_mod_multiples_vanish(1, sum as int, 0xffff);
    }
}

/// The header of a written IPv4 packet passes the receiver's test: its words, the
/// checksum among them, fold to all ones.
pub proof fn lemma_v4_header_passes(src: Seq<u8>, dst: Seq<u8>, total: int)
    requires
        src.len() == 4,
        dst.len() == 4,
        0 <= total < 0x10000,
    ensures
        fold16(
            word_sum(v4_header(src, dst, total, checksum_of(word_sum(v4_header(src, dst, total, 0))))),
        ) == 0xffff,
{
    let front = seq![0x45u8, 0u8] + be16_bytes(total) + seq![
        0u8,
        0u8,
        0x40u8,
        0u8,
        HOP_LIMIT,
        PROTOCOL_UDP,
    ];
    let back = src + dst;
    let blank = v4_header(src, dst, total, 0);
    let sum = word_sum(blank);
    let check = checksum_of(sum);
    lemma_fold16(sum);
    assert(blank =~= front + (be16_bytes(0) + back));
    assert(v4_header(src, dst, total, check) =~= front + (be16_bytes(check) + back));
    lemma_word_sum_of_two(front, be16_bytes(0) + back);
    lemma_word_sum_of_two(front, be16_bytes(check) + back);
    lemma_word_sum_of_two(be16_bytes(0), back);
    lemma_word_sum_of_two(be16_bytes(check), back);
    lemma_word_sum_of_be16(0);
    lemma_word_sum_of_be16(check);
    assert(word_sum(front) >= 0x4500) by {
        assert(front[0] == 0x45u8);
        assert(front.len() == 10);
    }
    lemma_checksum_passes(sum);
}

/// The UDP datagram of a written packet passes the receiver's test: the words of the
/// pseudo header, of the header with its checksum, and of the payload fold to all ones.
pub proof fn lemma_udp_checksum_passes(
    pseudo: Seq<u8>,
    src_port: u16,
    dst_port: u16,
    length: int,
    payload: Seq<u8>,
)
    requires
        8 <= length < 0x10000,
    ensures
        fold16(
            word_sum(pseudo) + word_sum(
                udp_header(
                    src_port,
                    dst_port,
                    length,
                    udp_checksum(pseudo, udp_header(src_port, dst_port, length, 0), payload),
                ),
            ) + word_sum(payload),
        ) == 0xffff,
{
    let bare = udp_header(src_port, dst_port, length, 0);
    let check = udp_checksum(pseudo, bare, payload);
    let front = be16_bytes(src_port as int) + be16_bytes(dst_port as int) + be16_bytes(length);
    let sum = word_sum(pseudo) + word_sum(bare) + word_sum(payload);
    lemma_fold16(sum);
    assert(bare =~= front + be16_bytes(0));
    assert(udp_header(src_port, dst_port, length, check) =~= front + be16_bytes(check));
    lemma_word_sum_of_two(front, be16_bytes(0));
    lemma_word_sum_of_two(front, be16_bytes(check));
    lemma_word_sum_of_be16(0);
    lemma_word_sum_of_be16(check);
    lemma_word_sum_of_two(be16_bytes(src_port as int) + be16_bytes(dst_port as int), be16_bytes(length));
    lemma_word_sum_of_be16(length);
    assert(word_sum(front) >= length);
    lemma_checksum_passes(sum);
}

/// The fields of a written IPv4 header, as a reader finds them.
proof fn lemma_v4_header_fields(src: Seq<u8>, dst: Seq<u8>, total: int, checksum: int)
    requires
        src.len() == 4,
        dst.len() == 4,
        0 <= total < 0x10000,
    ensures
        ({
            let header = v4_header(src, dst, total, checksum);
            &&& header.len() == 20
            &&& header[0] == 0x45
            &&& be16(header, 2) == total
            &&& be16(header, 6) == 0x4000
            &&& header[9] == PROTOCOL_UDP
            &&& header.subrange(12, 16) == src
            &&& header.subrange(16, 20) == dst
        }),
{
    let header = v4_header(src, dst, total, checksum);
    assert(header[2] == total / 256 && header[3] == total % 256);
    assert(header.subrange(12, 16) =~= src);
    assert(header.subrange(16, 20) =~= dst);
}

/// The fields of a written IPv6 header, as a reader finds them.
proof fn lemma_v6_header_fields(src: Seq<u8>, dst: Seq<u8>, length: int)
    requires
        src.len() == 16,
        dst.len() == 16,
        0 <= length < 0x10000,
    ensures
        ({
            let header = v6_header(src, dst, length);
            &&& header.len() == 40
            &&& header[0] == 0x60
            &&& be16(header, 4) == length
            &&& header[6] == PROTOCOL_UDP
            &&& header.subrange(8, 24) == src
            &&& header.subrange(24, 40) == dst
        }),
{
    let header = v6_header(src, dst, length);
    assert(header[4] == length / 256 && header[5] == length % 256);
    assert(header.subrange(8, 24) =~= src);
    assert(header.subrange(24, 40) =~= dst);
}

/// The fields of a written UDP header, as a reader finds them.
proof fn lemma_udp_header_fields(src_port: u16, dst_port: u16, length: int, checksum: int)
    requires
        0 <= length < 0x10000,
    ensures
        ({
            let header = udp_header(src_port, dst_port, length, checksum);
            &&& header.len() == 8
            &&& be16(header, 0) == src_port
            &&& be16(header, 2) == dst_port
            &&& be16(header, 4) == length
        }),
{
    let header = udp_header(src_port, dst_port, length, checksum);
    assert(header[0] == src_port / 256 && header[1] == src_port % 256);
    assert(header[2] == dst_port / 256 && header[3] == dst_port % 256);
    assert(header[4] == length / 256 && header[5] == length % 256);
}

/// The bytes of an address are as many as its family has, and stand for the address.
proof fn lemma_ip_bytes(ip: IpAddress, bytes: Seq<u8>, at: int)
    requires
        0 <= at,
        at + ip_bytes(ip).len() <= bytes.len(),
        bytes.subrange(at, at + ip_bytes(ip).len()) == ip_bytes(ip),
    ensures
        ip is V4 ==> ip_bytes(ip).len() == 4 && v4_at(bytes, at) == ip,
        ip is V6 ==> ip_bytes(ip).len() == 16 && v6_at(bytes, at) == ip,
{
    let part = bytes.subrange(at, at + ip_bytes(ip).len());
    match ip {
        IpAddress::V4(octets) => {
            assert(part[0] == bytes[at] && part[1] == bytes[at + 1] && part[2] == bytes[at + 2]
                && part[3] == bytes[at + 3]);
            assert(v4_at(bytes, at)->V4_0 =~= octets);
        },
        IpAddress::V6(groups) => {
            assert(ip_bytes(ip).len() == 16);
            assert forall|i: int| 0 <= i < 8 implies be16(bytes, at + 2 * i) == groups[i] by {
                assert(part[2 * i] == bytes[at + 2 * i]);
                assert(part[2 * i + 1] == bytes[at + 2 * i + 1]);
                assert(part[2 * i] == groups[i] / 256);
                assert(part[2 * i + 1] == groups[i] % 256);
            }
            assert(be16(bytes, at + 2 * 0) == groups[0]);
            assert(be16(bytes, at + 2 * 1) == groups[1]);
            assert(be16(bytes, at + 2 * 2) == groups[2]);
            assert(be16(bytes, at + 2 * 3) == groups[3]);
            assert(be16(bytes, at + 2 * 4) == groups[4]);
            assert(be16(bytes, at + 2 * 5) == groups[5]);
            assert(be16(bytes, at + 2 * 6) == groups[6]);
            assert(be16(bytes, at + 2 * 7) == groups[7]);
            assert(v6_at(bytes, at)->V6_0 =~= groups);
        },
    }
}

/// A packet made of a header, a UDP header and a payload holds each where it was put.
proof fn lemma_parts(header: Seq<u8>, udp: Seq<u8>, payload: Seq<u8>)
    requires
        udp.len() == 8,
    ensures
        ({
            let packet = header + udp + payload;
            let n = header.len() as int;
            &&& packet.len() == n + 8 + payload.len()
            &&& packet.subrange(0, n) == header
            &&& packet.subrange(n, n + 8) == udp
            &&& packet.subrange(n + 8, n + 8 + payload.len()) == payload
            &&& forall|i: int| 0 <= i < n ==> packet[i] == header[i]
            &&& forall|i: int| 0 <= i < 8 ==> packet[n + i] == udp[i]
        }),
{
    let packet = header + udp + payload;
    let n = header.len() as int;
    assert(packet.subrange(0, n) =~= header);
    assert(packet.subrange(n, n + 8) =~= udp);
    assert(packet.subrange(n + 8, n + 8 + payload.len()) =~= payload);
}

/// True of a packet in which a reader finds these addresses, ports and payload at the
/// places where an IPv4 packet without options has them.
spec fn reads_as_v4(packet: Seq<u8>, src: SocketAddress, dst: SocketAddress, payload: Seq<u8>) -> bool {
    &&& packet.len() == 28 + payload.len()
    &&& payload.len() <= MAX_V4_PAYLOAD
    &&& packet[0] == 0x45
    &&& be16(packet, 2) == 28 + payload.len()
    &&& be16(packet, 6) == 0x4000
    &&& packet[9] == PROTOCOL_UDP
    &&& v4_at(packet, 12) == src.ip
    &&& v4_at(packet, 16) == dst.ip
    &&& be16(packet, 20) == src.port
    &&& be16(packet, 22) == dst.port
    &&& be16(packet, 24) == 8 + payload.len()
    &&& packet.subrange(28, 28 + payload.len() as int) == payload
}

/// True of a packet in which a reader finds these addresses, ports and payload at the
/// places where an IPv6 packet has them.
spec fn reads_as_v6(packet: Seq<u8>, src: SocketAddress, dst: SocketAddress, payload: Seq<u8>) -> bool {
    &&& packet.len() == 48 + payload.len()
    &&& payload.len() <= MAX_V6_PAYLOAD
    &&& packet[0] == 0x60
    &&& be16(packet, 4) == 8 + payload.len()
    &&& packet[6] == PROTOCOL_UDP
    &&& v6_at(packet, 8) == src.ip
    &&& v6_at(packet, 24) == dst.ip
    &&& be16(packet, 40) == src.port
    &&& be16(packet, 42) == dst.port
    &&& be16(packet, 44) == 8 + payload.len()
    &&& packet.subrange(48, 48 + payload.len() as int) == payload
}

/// A packet with the fields of a UDP datagram in IPv4 is read as that datagram.
proof fn lemma_read_v4(packet: Seq<u8>, src: SocketAddress, dst: SocketAddress, payload: Seq<u8>)
    requires
        reads_as_v4(packet, src, dst, payload),
    ensures
        segment_of(packet) == (SegmentView::Udp { src_addr: src, dst_addr: dst, payload }),
{
    assert(is_ipv4(packet));
    let c = carried_spec(packet)->Some_0;
    assert(c.start == 20 && c.end == 28 + payload.len());
}

/// A packet with the fields of a UDP datagram in IPv6 is read as that datagram.
proof fn lemma_read_v6(packet: Seq<u8>, src: SocketAddress, dst: SocketAddress, payload: Seq<u8>)
    requires
        reads_as_v6(packet, src, dst, payload),
    ensures
        segment_of(packet) == (SegmentView::Udp { src_addr: src, dst_addr: dst, payload }),
{
    assert(!is_ipv4(packet));
    assert(is_ipv6(packet));
    let c = carried_spec(packet)->Some_0;
    assert(c.start == 40 && c.end == 48 + payload.len());
}

/// A written IPv4 packet has its fields where a reader looks for them.
proof fn lemma_written_v4(src: SocketAddress, dst: SocketAddress, payload: Seq<u8>)
    requires
        src.ip is V4,
        dst.ip is V4,
        payload.len() <= MAX_V4_PAYLOAD,
    ensures
        reads_as_v4(v4_udp_packet(src, dst, payload), src, dst, payload),
{
    let packet = v4_udp_packet(src, dst, payload);
    let s = ip_bytes(src.ip);
    let d = ip_bytes(dst.ip);
    let length = 8 + payload.len() as int;
    let check = checksum_of(word_sum(v4_header(s, d, 20 + length, 0)));
    let header = v4_header(s, d, 20 + length, check);
    let sum = udp_checksum(
        v4_pseudo_header(s, d, length),
        udp_header(src.port, dst.port, length, 0),
        payload,
    );
    let udp = udp_header(src.port, dst.port, length, sum);
    lemma_v4_header_fields(s, d, 20 + length, check);
    lemma_udp_header_fields(src.port, dst.port, length, sum);
    lemma_parts(header, udp, payload);
    assert(packet == header + udp + payload);
    assert(packet.subrange(12, 16) =~= header.subrange(12, 16));
    assert(packet.subrange(16, 20) =~= header.subrange(16, 20));
    lemma_ip_bytes(src.ip, packet, 12);
    lemma_ip_bytes(dst.ip, packet, 16);
    assert(be16(packet, 2) == be16(header, 2));
    assert(be16(packet, 6) == be16(header, 6));
    assert(be16(packet, 20) == be16(udp, 0));
    assert(be16(packet, 22) == be16(udp, 2));
    assert(be16(packet, 24) == be16(udp, 4));
}

/// A written IPv6 packet has its fields where a reader looks for them.
proof fn lemma_written_v6(src: SocketAddress, dst: SocketAddress, payload: Seq<u8>)
    requires
        src.ip is V6,
        dst.ip is V6,
        payload.len() <= MAX_V6_PAYLOAD,
    ensures
        reads_as_v6(v6_udp_packet(src, dst, payload), src, dst, payload),
{
    let packet = v6_udp_packet(src, dst, payload);
    let s = ip_bytes(src.ip);
    let d = ip_bytes(dst.ip);
    let length = 8 + payload.len() as int;
    let header = v6_header(s, d, length);
    let sum = udp_checksum(
        v6_pseudo_header(s, d, length),
        udp_header(src.port, dst.port, length, 0),
        payload,
    );
    let udp = udp_header(src.port, dst.port, length, sum);
    assert(s.len() == 16 && d.len() == 16);
    lemma_v6_header_fields(s, d, length);
    lemma_udp_header_fields(src.port, dst.port, length, sum);
    lemma_parts(header, udp, payload);
    assert(packet == header + udp + payload);
    assert(packet.subrange(8, 24) =~= header.subrange(8, 24));
    assert(packet.subrange(24, 40) =~= header.subrange(24, 40));
    lemma_ip_bytes(src.ip, packet, 8);
    lemma_ip_bytes(dst.ip, packet, 24);
    assert(be16(packet, 4) == be16(header, 4));
    assert(be16(packet, 40) == be16(udp, 0));
    assert(be16(packet, 42) == be16(udp, 2));
    assert(be16(packet, 44) == be16(udp, 4));
}

/// A datagram that was put into a packet is read back from it as it was: the same
/// addresses, the same ports, the same payload.
pub proof fn lemma_udp_packet_is_read_back(src: SocketAddress, dst: SocketAddress, payload: Seq<u8>)
    requires
        udp_packet_spec(src, dst, payload) is Some,
    ensures
        segment_of(udp_packet_spec(src, dst, payload)->Some_0) == (SegmentView::Udp {
            src_addr: src,
            dst_addr: dst,
            payload,
        }),
{
    if src.ip is V4 {
        lemma_written_v4(src, dst, payload);
        lemma_read_v4(v4_udp_packet(src, dst, payload), src, dst, payload);
    } else {
        lemma_written_v6(src, dst, payload);
        lemma_read_v6(v6_udp_packet(src, dst, payload), src, dst, payload);
    }
}

} // verus!
