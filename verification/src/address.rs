//! Socket addresses as plain values: what crosses the boundary to the embedding
//! application, with no scope identifier and no flow information.

use crate::text::decimal_text;
use crate::text::hex_text;
use crate::text::push_char;
use crate::text::push_decimal;
use crate::text::push_hex;
use crate::text::push_text;
use vstd::prelude::*;
use vstd::string::*;

verus! {

/// An IPv4 or IPv6 address.
#[derive(Clone, Copy, Debug, PartialEq, Eq, Hash)]
pub enum IpAddress {
    /// The four octets of an IPv4 address, first octet first.
    V4([u8; 4]),
    /// The eight 16-bit groups of an IPv6 address, first group first.
    V6([u16; 8]),
}

/// An IP address and a port.
#[derive(Clone, Copy, Debug, PartialEq, Eq, Hash)]
pub struct SocketAddress {
    pub ip: IpAddress,
    pub port: u16,
}

/// The text of an IPv4 address: its four octets in decimal, with dots between them.
pub open spec fn v4_text(octets: Seq<u8>) -> Seq<char> {
    decimal_text(octets[0] as nat) + seq!['.'] + decimal_text(octets[1] as nat) + seq!['.']
        + decimal_text(octets[2] as nat) + seq!['.'] + decimal_text(octets[3] as nat)
}

/// True if the `len` groups from `start` on are all zero.
pub open spec fn is_zero_run(groups: Seq<u16>, start: int, len: int) -> bool {
    &&& 0 <= start
    &&& 0 <= len
    &&& start + len <= groups.len()
    &&& forall|i: int| start <= i < start + len ==> groups[i] == 0
}

/// True of the run of zero groups that the text of an IPv6 address leaves out: it has
/// at least two groups, no run is longer, and no run of its length starts earlier.
pub open spec fn is_elided_run(groups: Seq<u16>, start: int, len: int) -> bool {
    &&& len >= 2
    &&& is_zero_run(groups, start, len)
    &&& forall|s: int, l: int| #[trigger] is_zero_run(groups, s, l) ==> l <= len
    &&& forall|s: int| 0 <= s < start ==> !#[trigger] is_zero_run(groups, s, len)
}

/// True if the text of an IPv6 address leaves a run of zero groups out.
pub open spec fn has_elided_run(groups: Seq<u16>) -> bool {
    exists|s: int, l: int| is_elided_run(groups, s, l)
}

/// Where the run that is left out starts, and how long it is.
pub open spec fn elided_run(groups: Seq<u16>) -> (int, int) {
    choose|run: (int, int)| is_elided_run(groups, run.0, run.1)
}

/// Groups in hexadecimal, with colons between them.
pub open spec fn groups_text(groups: Seq<u16>) -> Seq<char>
    decreases groups.len(),
{
    if groups.len() == 0 {
        Seq::empty()
    } else if groups.len() == 1 {
        hex_text(groups[0] as nat)
    } else {
        groups_text(groups.drop_last()) + seq![':'] + hex_text(groups.last() as nat)
    }
}

/// True of an IPv6 address that stands for an IPv4 address: five zero groups, then
/// `ffff`.
pub open spec fn is_v4_mapped(groups: Seq<u16>) -> bool {
    &&& groups[0] == 0
    &&& groups[1] == 0
    &&& groups[2] == 0
    &&& groups[3] == 0
    &&& groups[4] == 0
    &&& groups[5] == 0xffff
}

/// The IPv4 address that the last two groups of an IPv6 address hold.
pub open spec fn mapped_octets(groups: Seq<u16>) -> Seq<u8> {
    seq![
        (groups[6] / 256) as u8,
        (groups[6] % 256) as u8,
        (groups[7] / 256) as u8,
        (groups[7] % 256) as u8,
    ]
}

/// The text of an IPv6 address of eight groups. An address that stands for an IPv4
/// address is `::ffff:` and that address. In any other, the first of the longest runs
/// of two or more zero groups is left out, with `::` in its place, and the other groups
/// are written in hexadecimal with colons between them.
pub open spec fn v6_text(groups: Seq<u16>) -> Seq<char> {
    if is_v4_mapped(groups) {
        "::ffff:"@ + v4_text(mapped_octets(groups))
    } else if has_elided_run(groups) {
        groups_text(groups.subrange(0, elided_run(groups).0)) + "::"@ + groups_text(
            groups.subrange(elided_run(groups).0 + elided_run(groups).1, groups.len() as int),
        )
    } else {
        groups_text(groups)
    }
}

/// Only one run is the one left out.
pub proof fn lemma_elided_run_is_unique(groups: Seq<u16>, start: int, len: int)
    requires
        is_elided_run(groups, start, len),
    ensures
        has_elided_run(groups),
        elided_run(groups) == (start, len),
{
    let found = elided_run(groups);
    assert(is_elided_run(groups, (start, len).0, (start, len).1));
    assert(is_elided_run(groups, found.0, found.1));
    assert(is_zero_run(groups, start, len));
    assert(is_zero_run(groups, found.0, found.1));
    assert(found.1 == len);
    if found.0 < start {
        assert(!is_zero_run(groups, found.0, len));
    }
    if start < found.0 {
        assert(!is_zero_run(groups, start, found.1));
    }
}

/// Finds the first of the longest runs of zero groups: where it starts and how long it
/// is. The length is zero if no group is zero.
fn longest_zero_run(groups: &[u16; 8]) -> (run: (usize, usize))
    ensures
        is_zero_run(groups@, run.0 as int, run.1 as int),
        forall|s: int, l: int| #[trigger] is_zero_run(groups@, s, l) ==> l <= run.1,
        forall|s: int| 0 <= s < run.0 ==> !#[trigger] is_zero_run(groups@, s, run.1 as int),
{
    let mut best_start: usize = 0;
    let mut best_len: usize = 0;
    let mut start: usize = 0;
    let mut len: usize = 0;
    let mut i: usize = 0;
    while i < 8
        invariant
            i <= 8,
            groups@.len() == 8,
            start + len == i,
            is_zero_run(groups@, start as int, len as int),
            start == 0 || groups@[start - 1] != 0,
            is_zero_run(groups@, best_start as int, best_len as int),
            best_start + best_len <= i,
            len <= best_len,
            (best_start == start && best_len == len) || best_start + best_len <= start,
            forall|s: int, l: int| #[trigger] is_zero_run(groups@, s, l) && s + l <= i ==> l <= best_len,
            forall|s: int|
                0 <= s < best_start ==> !(#[trigger] is_zero_run(groups@, s, best_len as int) && s
                    + best_len <= i),
        decreases 8 - i,
    {
        let ghost old_start = start;
        let ghost old_len = len;
        let ghost old_best_start = best_start;
        let ghost old_best_len = best_len;
        if groups[i] == 0 {
            len = len + 1;
            if len > best_len {
                best_start = start;
                best_len = len;
            }
        } else {
            start = i + 1;
            len = 0;
        }
        proof {
            assert forall|s: int, l: int| #[trigger]
                is_zero_run(groups@, s, l) && s + l <= i + 1 implies l <= best_len by {
                if s + l == i + 1 && l > 0 {
                    assert(groups@[i as int] == 0);
                    if s < old_start {
                        assert(groups@[old_start - 1] == 0);
                    }
                }
            }
            assert forall|s: int| 0 <= s < best_start implies !(#[trigger] is_zero_run(
                groups@,
                s,
                best_len as int,
            ) && s + best_len <= i + 1) by {
                if is_zero_run(groups@, s, best_len as int) && s + best_len == i + 1 && best_len
                    > 0 {
                    assert(groups@[i as int] == 0);
                    if s < old_start {
                        assert(groups@[old_start - 1] == 0);
                    }
                }
            }
        }
        i = i + 1;
    }
    (best_start, best_len)
}

/// Writes the groups from `from` up to `to` in hexadecimal, with colons between them.
fn push_groups(text: &mut String, groups: &[u16; 8], from: usize, to: usize)
    requires
        from <= to <= 8,
    ensures
        final(text)@ == old(text)@ + groups_text(groups@.subrange(from as int, to as int)),
{
    let mut j: usize = from;
    assert(groups@.subrange(from as int, from as int) =~= Seq::<u16>::empty());
    assert(text@ =~= old(text)@ + groups_text(groups@.subrange(from as int, j as int)));
    while j < to
        invariant
            from <= j <= to <= 8,
            groups@.len() == 8,
            text@ == old(text)@ + groups_text(groups@.subrange(from as int, j as int)),
        decreases to - j,
    {
        let ghost before = groups@.subrange(from as int, j as int);
        let ghost after = groups@.subrange(from as int, j + 1);
        assert(after.drop_last() =~= before);
        assert(after.last() == groups@[j as int]);
        if j > from {
            push_char(text, ':');
        }
        push_hex(text, groups[j]);
        assert(text@ =~= old(text)@ + groups_text(after));
        j = j + 1;
    }
}

/// Writes an IPv4 address at the end of a text.
fn push_v4(text: &mut String, a: u8, b: u8, c: u8, d: u8)
    ensures
        final(text)@ == old(text)@ + v4_text(seq![a, b, c, d]),
{
    push_decimal(text, a as u32);
    push_char(text, '.');
    push_decimal(text, b as u32);
    push_char(text, '.');
    push_decimal(text, c as u32);
    push_char(text, '.');
    push_decimal(text, d as u32);
    assert(text@ =~= old(text)@ + v4_text(seq![a, b, c, d]));
}

/// Writes an IPv6 address at the end of a text.
fn push_v6(text: &mut String, groups: &[u16; 8])
    ensures
        final(text)@ == old(text)@ + v6_text(groups@),
{
    if groups[0] == 0 && groups[1] == 0 && groups[2] == 0 && groups[3] == 0 && groups[4] == 0
        && groups[5] == 0xffff {
        push_text(text, "::ffff:");
        let a = (groups[6] / 256) as u8;
        let b = (groups[6] % 256) as u8;
        let c = (groups[7] / 256) as u8;
        let d = (groups[7] % 256) as u8;
        push_v4(text, a, b, c, d);
        assert(seq![a, b, c, d] =~= mapped_octets(groups@));
        assert(text@ =~= old(text)@ + v6_text(groups@));
    } else {
        let run = longest_zero_run(groups);
        if run.1 >= 2 {
            proof {
                lemma_elided_run_is_unique(groups@, run.0 as int, run.1 as int);
            }
            push_groups(text, groups, 0, run.0);
            push_text(text, "::");
            push_groups(text, groups, run.0 + run.1, 8);
            assert(text@ =~= old(text)@ + v6_text(groups@));
        } else {
            assert(!has_elided_run(groups@)) by {
                if has_elided_run(groups@) {
                    let found = elided_run(groups@);
                    assert(is_zero_run(groups@, found.0, found.1));
                }
            }
            push_groups(text, groups, 0, 8);
            assert(groups@.subrange(0, 8) =~= groups@);
        }
    }
}

impl IpAddress {
    /// The address as text.
    pub open spec fn text(self) -> Seq<char> {
        match self {
            IpAddress::V4(octets) => v4_text(octets@),
            IpAddress::V6(groups) => v6_text(groups@),
        }
    }

    /// The address as text.
    pub fn to_text(&self) -> (text: String)
        ensures
            text@ == self.text(),
    {
        let mut text = String::new();
        match self {
            IpAddress::V4(octets) => {
                push_v4(&mut text, octets[0], octets[1], octets[2], octets[3]);
                assert(seq![octets[0], octets[1], octets[2], octets[3]] =~= octets@);
            },
            IpAddress::V6(groups) => {
                push_v6(&mut text, groups);
            },
        }
        assert(text@ =~= self.text());
        text
    }
}

impl SocketAddress {
    /// The address as text: `host:port`, with the host of an IPv6 address in square
    /// brackets.
    pub open spec fn text(self) -> Seq<char> {
        match self.ip {
            IpAddress::V4(_) => self.ip.text() + seq![':'] + decimal_text(self.port as nat),
            IpAddress::V6(_) => seq!['['] + self.ip.text() + seq![']', ':'] + decimal_text(
                self.port as nat,
            ),
        }
    }

    /// The address as text.
    pub fn to_text(&self) -> (text: String)
        ensures
            text@ == self.text(),
    {
        let mut text = String::new();
        match self.ip {
            IpAddress::V4(_) => {
                let host = self.ip.to_text();
                push_text(&mut text, host.as_str());
                push_char(&mut text, ':');
                push_decimal(&mut text, self.port as u32);
            },
            IpAddress::V6(_) => {
                let host = self.ip.to_text();
                push_char(&mut text, '[');
                push_text(&mut text, host.as_str());
                push_char(&mut text, ']');
                push_char(&mut text, ':');
                push_decimal(&mut text, self.port as u32);
            },
        }
        assert(text@ =~= self.text());
        text
    }

    /// The host as text and the port: the pair that stands for the address on the side
    /// of the embedding application.
    pub fn to_host_port(&self) -> (pair: (String, u16))
        ensures
            pair.0@ == self.ip.text(),
            pair.1 == self.port,
    {
        (self.ip.to_text(), self.port)
    }

    /// The address made of an IP address and a port.
    pub fn new(ip: IpAddress, port: u16) -> (address: SocketAddress)
        ensures
            address == (SocketAddress { ip, port }),
    {
        SocketAddress { ip, port }
    }

    /// The IPv4 address `a.b.c.d` with a port.
    pub fn v4(a: u8, b: u8, c: u8, d: u8, port: u16) -> (address: SocketAddress)
        ensures
            address.port == port,
            address.ip matches IpAddress::V4(octets) && octets@ == seq![a, b, c, d],
    {
        SocketAddress { ip: IpAddress::V4([a, b, c, d]), port }
    }

    /// True for an IPv4 address.
    pub fn is_ipv4(&self) -> (v4: bool)
        ensures
            v4 == (self.ip is V4),
    {
        match self.ip {
            IpAddress::V4(_) => true,
            IpAddress::V6(_) => false,
        }
    }
}

} // verus!
