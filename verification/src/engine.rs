//! What the WireGuard worker decides around its tunnels: where each peer is reached,
//! which peer an address inside the tunnel belongs to, what becomes of each thing a
//! tunnel hands back, and how many datagrams were dropped.
//!
//! The tunnels themselves, with their handshakes, keys, counters and timers, are run
//! by whoever drives this engine; the engine is told what a tunnel made of a datagram
//! or a packet, and answers what is to be done.

use crate::address::IpAddress;
use crate::address::SocketAddress;
use vstd::prelude::*;

verus! {

/// What a tunnel made of a datagram from the network or of a packet from the stack.
#[derive(Clone, Debug, PartialEq, Eq)]
pub enum TunnelOutcome {
    /// The tunnel took it and has nothing to hand on.
    Done,
    /// The tunnel refused it: malformed, not authentic, replayed, or out of turn.
    Failed,
    /// The tunnel wants these bytes sent to the peer over UDP.
    ToNetwork(Vec<u8>),
    /// The tunnel decrypted this IP packet, which came from this address inside the
    /// tunnel.
    ToStack(Vec<u8>, IpAddress),
}

/// What is to be done after a tunnel handed something back.
#[derive(Clone, Debug, PartialEq, Eq)]
pub enum EngineAction {
    /// Nothing.
    Nothing,
    /// Send these bytes to this address over UDP.
    Send(Vec<u8>, SocketAddress),
    /// Hand this IP packet to the stack.
    Deliver(Vec<u8>),
}

/// The mathematical value of an [`EngineAction`].
pub enum EngineActionView {
    Nothing,
    Send(Seq<u8>, SocketAddress),
    Deliver(Seq<u8>),
}

impl View for EngineAction {
    type V = EngineActionView;

    open spec fn view(&self) -> EngineActionView {
        match *self {
            EngineAction::Nothing => EngineActionView::Nothing,
            EngineAction::Send(bytes, to) => EngineActionView::Send(bytes@, to),
            EngineAction::Deliver(packet) => EngineActionView::Deliver(packet@),
        }
    }
}

/// What a datagram from the network is by its first bytes and its length.
#[derive(Clone, Copy, Debug, PartialEq, Eq, Structural)]
pub enum Datagram {
    /// The first message of a handshake. It names no receiver: whose it is shows only
    /// once it is decrypted.
    HandshakeInitiation,
    /// A handshake response, a cookie reply or transport data, for the session with
    /// this index.
    ForReceiver(u32),
    /// No WireGuard message.
    Invalid,
}

/// The number that four bytes at `at` stand for, the first byte counting least.
pub open spec fn le32(bytes: Seq<u8>, at: int) -> int {
    bytes[at] + bytes[at + 1] * 0x100 + bytes[at + 2] * 0x1_0000 + bytes[at + 3] * 0x100_0000
}

/// What a datagram is. The first four bytes give the type of the message. A handshake
/// initiation has 148 bytes; a handshake response has 92 and names its receiver in the
/// bytes from 8 on; a cookie reply has 64 and transport data at least 32, and both name
/// their receiver in the bytes from 4 on.
pub open spec fn datagram_kind(bytes: Seq<u8>) -> Datagram {
    if bytes.len() < 4 {
        Datagram::Invalid
    } else if le32(bytes, 0) == 1 && bytes.len() == 148 {
        Datagram::HandshakeInitiation
    } else if le32(bytes, 0) == 2 && bytes.len() == 92 {
        Datagram::ForReceiver(le32(bytes, 8) as u32)
    } else if le32(bytes, 0) == 3 && bytes.len() == 64 {
        Datagram::ForReceiver(le32(bytes, 4) as u32)
    } else if le32(bytes, 0) == 4 && bytes.len() >= 32 {
        Datagram::ForReceiver(le32(bytes, 4) as u32)
    } else {
        Datagram::Invalid
    }
}

/// The place of the peer whose tunnel a session index belongs to: a tunnel made for the
/// peer at place `p` numbers its sessions from `256 * p` to `256 * p + 255`.
pub open spec fn peer_of(receiver: u32) -> usize {
    (receiver / 256) as usize
}

/// Reads the number that four bytes stand for.
fn read_le32(bytes: &[u8], at: usize) -> (value: u32)
    requires
        at + 4 <= bytes@.len(),
    ensures
        value == le32(bytes@, at as int),
{
    (bytes[at] as u32) + (bytes[at + 1] as u32) * 0x100 + (bytes[at + 2] as u32) * 0x1_0000 + (
    bytes[at + 3] as u32) * 0x100_0000
}

/// Says what a datagram from the network is.
pub fn classify(datagram: &[u8]) -> (kind: Datagram)
    ensures
        kind == datagram_kind(datagram@),
{
    let len = datagram.len();
    if len < 4 {
        return Datagram::Invalid;
    }
    let kind = read_le32(datagram, 0);
    if kind == 1 && len == 148 {
        Datagram::HandshakeInitiation
    } else if kind == 2 && len == 92 {
        Datagram::ForReceiver(read_le32(datagram, 8))
    } else if kind == 3 && len == 64 {
        Datagram::ForReceiver(read_le32(datagram, 4))
    } else if kind == 4 && len >= 32 {
        Datagram::ForReceiver(read_le32(datagram, 4))
    } else {
        Datagram::Invalid
    }
}

/// The place of the peer whose tunnel a session index belongs to.
pub fn peer_of_receiver(receiver: u32) -> (peer: usize)
    ensures
        peer == peer_of(receiver),
{
    (receiver / 256) as usize
}

/// An address inside the tunnel and the place of the peer it was last seen with.
#[derive(Clone, Copy, Debug, PartialEq, Eq)]
pub struct Route {
    pub address: IpAddress,
    pub peer: usize,
}

/// The engine's state.
#[derive(Clone, Debug, PartialEq, Eq)]
pub struct Engine {
    /// For each peer, by its place in the server's list: the address from which the
    /// last datagram came that its tunnel accepted, if any has.
    pub endpoints: Vec<Option<SocketAddress>>,
    /// The addresses inside the tunnel that packets came from, each with its peer.
    pub routes: Vec<Route>,
    /// How many datagrams and packets were dropped; it stops at the largest number.
    pub dropped: u64,
}

/// The peer that the first route for an address names, if a route for it is known.
pub open spec fn route_of(routes: Seq<Route>, address: IpAddress) -> Option<usize>
    decreases routes.len(),
{
    if routes.len() == 0 {
        None
    } else if routes[0].address == address {
        Some(routes[0].peer)
    } else {
        route_of(routes.drop_first(), address)
    }
}

/// A counter one higher, unless it is at the largest number already.
pub open spec fn counted(dropped: u64) -> u64 {
    if dropped == u64::MAX {
        dropped
    } else {
        (dropped + 1) as u64
    }
}

/// True if `i` is the place of the first route for the address.
pub open spec fn first_route_at(routes: Seq<Route>, address: IpAddress, i: int) -> bool {
    &&& 0 <= i < routes.len()
    &&& routes[i].address == address
    &&& forall|k: int| 0 <= k < i ==> (#[trigger] routes[k]).address != address
}

/// The first route for an address decides its peer.
pub proof fn lemma_route_found(routes: Seq<Route>, address: IpAddress, i: int)
    requires
        first_route_at(routes, address, i),
    ensures
        route_of(routes, address) == Some(routes[i].peer),
    decreases routes.len(),
{
    if i > 0 {
        let rest = routes.drop_first();
        assert(routes[0].address != address);
        assert forall|k: int| 0 <= k < i - 1 implies (#[trigger] rest[k]).address != address by {
            assert(rest[k] == routes[k + 1]);
        }
        lemma_route_found(rest, address, i - 1);
    }
}

/// An address without a route has no peer.
pub proof fn lemma_route_absent(routes: Seq<Route>, address: IpAddress)
    requires
        forall|k: int| 0 <= k < routes.len() ==> (#[trigger] routes[k]).address != address,
    ensures
        route_of(routes, address) is None,
    decreases routes.len(),
{
    if routes.len() > 0 {
        let rest = routes.drop_first();
        assert(routes[0].address != address);
        assert forall|k: int| 0 <= k < rest.len() implies (#[trigger] rest[k]).address
            != address by {
            assert(rest[k] == routes[k + 1]);
        }
        lemma_route_absent(rest, address);
    }
}

/// Changing the peer of the first route for an address changes the peer of that
/// address and of no other.
pub proof fn lemma_route_updated(routes: Seq<Route>, i: int, peer: usize, other: IpAddress)
    requires
        first_route_at(routes, routes[i].address, i),
    ensures
        route_of(routes.update(i, Route { address: routes[i].address, peer }), other) == if other
            == routes[i].address {
            Some(peer)
        } else {
            route_of(routes, other)
        },
    decreases routes.len(),
{
    let address = routes[i].address;
    let after = routes.update(i, Route { address, peer });
    if i == 0 {
        assert(after.drop_first() =~= routes.drop_first());
    } else {
        let rest = routes.drop_first();
        assert(rest[i - 1] == routes[i]);
        assert forall|k: int| 0 <= k < i - 1 implies (#[trigger] rest[k]).address != address by {
            assert(rest[k] == routes[k + 1]);
        }
        assert(after.drop_first() =~= rest.update(i - 1, Route { address, peer }));
        assert(after[0] == routes[0]);
        lemma_route_updated(rest, i - 1, peer, other);
    }
}

/// A route added behind all others decides the peer of its address if no route for it
/// was known, and changes the peer of no other address.
pub proof fn lemma_route_added(routes: Seq<Route>, route: Route, other: IpAddress)
    requires
        route_of(routes, route.address) is None,
    ensures
        route_of(routes.push(route), other) == if other == route.address {
            Some(route.peer)
        } else {
            route_of(routes, other)
        },
    decreases routes.len(),
{
    let after = routes.push(route);
    if routes.len() == 0 {
        assert(after[0] == route);
        assert(after.drop_first() =~= Seq::<Route>::empty());
        assert(route_of(after.drop_first(), other) is None);
    } else {
        assert(routes[0].address != route.address);
        assert(route_of(routes.drop_first(), route.address) is None);
        assert(after.drop_first() =~= routes.drop_first().push(route));
        assert(after[0] == routes[0]);
        lemma_route_added(routes.drop_first(), route, other);
    }
}

/// True if the two addresses are the same.
fn same_ip(a: &IpAddress, b: &IpAddress) -> (same: bool)
    ensures
        same == (*a == *b),
{
    match (a, b) {
        (IpAddress::V4(x), IpAddress::V4(y)) => {
            let same = x[0] == y[0] && x[1] == y[1] && x[2] == y[2] && x[3] == y[3];
            proof {
                if same {
                    assert(*x =~= *y);
                } else {
                    assert(x@ != y@);
                }
            }
            same
        },
        (IpAddress::V6(x), IpAddress::V6(y)) => {
            let same = x[0] == y[0] && x[1] == y[1] && x[2] == y[2] && x[3] == y[3] && x[4] == y[4]
                && x[5] == y[5] && x[6] == y[6] && x[7] == y[7];
            proof {
                if same {
                    assert(*x =~= *y);
                } else {
                    assert(x@ != y@);
                }
            }
            same
        },
        _ => false,
    }
}

impl Engine {
    /// The endpoint of the peer at place `peer`; none for a place beyond the list.
    pub open spec fn endpoint_spec(&self, peer: usize) -> Option<SocketAddress> {
        if peer < self.endpoints@.len() {
            self.endpoints@[peer as int]
        } else {
            None
        }
    }

    /// The endpoints after a datagram from `from` was accepted by the tunnel of the
    /// peer at place `peer`.
    pub open spec fn heard(&self, peer: usize, from: SocketAddress) -> Seq<Option<SocketAddress>> {
        if peer < self.endpoints@.len() {
            self.endpoints@.update(peer as int, Some(from))
        } else {
            self.endpoints@
        }
    }

    /// An engine for this many peers: no endpoint and no route is known yet, and
    /// nothing was dropped.
    pub fn new(peers: usize) -> (engine: Engine)
        ensures
            engine.endpoints@.len() == peers,
            forall|i: int| 0 <= i < peers ==> engine.endpoints@[i] is None,
            engine.routes@.len() == 0,
            engine.dropped == 0,
    {
        let mut endpoints: Vec<Option<SocketAddress>> = Vec::new();
        let mut i: usize = 0;
        while i < peers
            invariant
                i <= peers,
                endpoints@.len() == i,
                forall|k: int| 0 <= k < i ==> endpoints@[k] is None,
            decreases peers - i,
        {
            endpoints.push(None);
            i += 1;
        }
        Engine { endpoints, routes: Vec::new(), dropped: 0 }
    }

    /// Where the peer at place `peer` is reached: the source of the last datagram that
    /// its tunnel accepted.
    pub fn endpoint(&self, peer: usize) -> (endpoint: Option<SocketAddress>)
        ensures
            endpoint == self.endpoint_spec(peer),
    {
        if peer < self.endpoints.len() {
            self.endpoints[peer]
        } else {
            None
        }
    }

    /// The peer that an address inside the tunnel belongs to, if a packet from that
    /// address has come through a tunnel.
    pub fn route(&self, address: IpAddress) -> (peer: Option<usize>)
        ensures
            peer == route_of(self.routes@, address),
    {
        match self.find_route(&address) {
            Some(i) => Some(self.routes[i].peer),
            None => None,
        }
    }

    /// The place of the first route for an address.
    fn find_route(&self, address: &IpAddress) -> (found: Option<usize>)
        ensures
            found matches Some(i) ==> first_route_at(self.routes@, *address, i as int)
                && route_of(self.routes@, *address) == Some(self.routes@[i as int].peer),
            found is None ==> route_of(self.routes@, *address) is None,
    {
        let mut i: usize = 0;
        while i < self.routes.len()
            invariant
                i <= self.routes@.len(),
                forall|k: int| 0 <= k < i ==> (#[trigger] self.routes@[k]).address != *address,
            decreases self.routes@.len() - i,
        {
            if same_ip(&self.routes[i].address, address) {
                proof {
                    lemma_route_found(self.routes@, *address, i as int);
                }
                return Some(i);
            }
            i += 1;
        }
        proof {
            lemma_route_absent(self.routes@, *address);
        }
        None
    }

    /// Notes that an address inside the tunnel belongs to a peer.
    fn learn(&mut self, address: IpAddress, peer: usize)
        ensures
            final(self).endpoints == old(self).endpoints,
            final(self).dropped == old(self).dropped,
            forall|other: IpAddress| #[trigger]
                route_of(final(self).routes@, other) == if other == address {
                    Some(peer)
                } else {
                    route_of(old(self).routes@, other)
                },
    {
        match self.find_route(&address) {
            Some(i) => {
                self.routes[i] = Route { address, peer };
                assert forall|other: IpAddress| #[trigger]
                    route_of(self.routes@, other) == if other == address {
                        Some(peer)
                    } else {
                        route_of(old(self).routes@, other)
                    } by {
                    lemma_route_updated(old(self).routes@, i as int, peer, other);
                }
            },
            None => {
                self.routes.push(Route { address, peer });
                assert forall|other: IpAddress| #[trigger]
                    route_of(self.routes@, other) == if other == address {
                        Some(peer)
                    } else {
                        route_of(old(self).routes@, other)
                    } by {
                    lemma_route_added(old(self).routes@, Route { address, peer }, other);
                }
            },
        }
    }

    /// Counts one dropped datagram or packet.
    fn count(&mut self)
        ensures
            final(self).endpoints == old(self).endpoints,
            final(self).routes == old(self).routes,
            final(self).dropped == counted(old(self).dropped),
    {
        if self.dropped < u64::MAX {
            self.dropped = self.dropped + 1;
        }
    }

    /// Notes that the tunnel of a peer accepted a datagram from `from`.
    fn hear(&mut self, peer: usize, from: SocketAddress)
        ensures
            final(self).endpoints@ == old(self).heard(peer, from),
            final(self).routes == old(self).routes,
            final(self).dropped == old(self).dropped,
    {
        if peer < self.endpoints.len() {
            self.endpoints[peer] = Some(from);
        }
    }

    /// A datagram came from `from` and the tunnel of the peer at place `peer` was given
    /// it; `outcome` is what the tunnel made of it.
    ///
    /// A datagram that the tunnel refused is dropped without an answer and counted. A
    /// datagram that the tunnel accepted, a keepalive, a cookie or a packet for the
    /// stack, makes `from` the peer's endpoint; a packet for the stack is delivered,
    /// and the address it came from inside the tunnel is noted as the peer's. What the
    /// tunnel wants sent in answer goes back to `from`; it does not change the
    /// endpoint, since an answer is also owed to a sender that is not yet known to be
    /// the peer.
    pub fn received(&mut self, peer: usize, from: SocketAddress, outcome: TunnelOutcome) -> (action:
        EngineAction)
        ensures
            match outcome {
                TunnelOutcome::Done => {
                    &&& action@ == EngineActionView::Nothing
                    &&& final(self).endpoints@ == old(self).heard(peer, from)
                    &&& final(self).routes == old(self).routes
                    &&& final(self).dropped == old(self).dropped
                },
                TunnelOutcome::Failed => {
                    &&& action@ == EngineActionView::Nothing
                    &&& final(self).endpoints == old(self).endpoints
                    &&& final(self).routes == old(self).routes
                    &&& final(self).dropped == counted(old(self).dropped)
                },
                TunnelOutcome::ToNetwork(bytes) => {
                    &&& action@ == EngineActionView::Send(bytes@, from)
                    &&& *final(self) == *old(self)
                },
                TunnelOutcome::ToStack(packet, source) => {
                    &&& action@ == EngineActionView::Deliver(packet@)
                    &&& final(self).endpoints@ == old(self).heard(peer, from)
                    &&& final(self).dropped == old(self).dropped
                    &&& forall|other: IpAddress| #[trigger]
                        route_of(final(self).routes@, other) == if other == source {
                            Some(peer)
                        } else {
                            route_of(old(self).routes@, other)
                        }
                },
            },
    {
        match outcome {
            TunnelOutcome::Done => {
                self.hear(peer, from);
                EngineAction::Nothing
            },
            TunnelOutcome::Failed => {
                self.count();
                EngineAction::Nothing
            },
            TunnelOutcome::ToNetwork(bytes) => EngineAction::Send(bytes, from),
            TunnelOutcome::ToStack(packet, source) => {
                self.hear(peer, from);
                self.learn(source, peer);
                EngineAction::Deliver(packet)
            },
        }
    }

    /// The tunnel of the peer at place `peer` was given a packet from the stack, or
    /// asked what its timers call for; `outcome` is what it handed back.
    ///
    /// What the tunnel wants sent goes to the peer's endpoint; while no endpoint is
    /// known it is dropped and counted, as is what the tunnel refused. Nothing is owed
    /// for a packet that the tunnel keeps until its handshake is done.
    pub fn emitted(&mut self, peer: usize, outcome: TunnelOutcome) -> (action: EngineAction)
        ensures
            final(self).endpoints == old(self).endpoints,
            final(self).routes == old(self).routes,
            match outcome {
                TunnelOutcome::ToNetwork(bytes) => match old(self).endpoint_spec(peer) {
                    Some(to) => action@ == EngineActionView::Send(bytes@, to) && final(self).dropped
                        == old(self).dropped,
                    None => action@ == EngineActionView::Nothing && final(self).dropped == counted(
                        old(self).dropped,
                    ),
                },
                TunnelOutcome::Failed => action@ == EngineActionView::Nothing
                    && final(self).dropped == counted(old(self).dropped),
                _ => action@ == EngineActionView::Nothing && final(self).dropped
                    == old(self).dropped,
            },
    {
        match outcome {
            TunnelOutcome::ToNetwork(bytes) => match self.endpoint(peer) {
                Some(to) => EngineAction::Send(bytes, to),
                None => {
                    self.count();
                    EngineAction::Nothing
                },
            },
            TunnelOutcome::Failed => {
                self.count();
                EngineAction::Nothing
            },
            _ => EngineAction::Nothing,
        }
    }

    /// A datagram or a packet could not be given to any tunnel: it names no peer. It is
    /// dropped and counted.
    pub fn unroutable(&mut self)
        ensures
            final(self).endpoints == old(self).endpoints,
            final(self).routes == old(self).routes,
            final(self).dropped == counted(old(self).dropped),
    {
        self.count();
    }
}

} // verus!
