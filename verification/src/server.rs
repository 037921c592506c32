//! The server as the embedding application holds it: its configuration, how it is
//! started from key texts, what it does with the events that reach it, and how it stops.

use crate::address::SocketAddress;
use crate::keys::key_of_text;
use crate::keys::parse_public_key;
use crate::keys::parse_secret_key;
use crate::keys::parsed_key;
use crate::keys::public_key_bytes;
use crate::keys::refused_key;
use crate::keys::secret_key_bytes;
use crate::messages::TransportCommand;
use crate::messages::TransportCommandView;
use crate::messages::TransportEvent;
use crate::messages::TransportEventView;
use crate::stream::StreamError;
use crate::stream::StreamErrorView;
use crate::stream::TcpStream;
use crate::text::push_char;
use crate::text::push_text;
use boringtun::crypto::X25519PublicKey;
use boringtun::crypto::X25519SecretKey;
use std::sync::Arc;
use vstd::prelude::*;

verus! {

/// A remote peer: its public key, and the symmetric key shared with it in advance, if
/// there is one. The key is shared with the peer's tunnel.
pub struct Peer {
    pub public_key: Arc<X25519PublicKey>,
    pub preshared_key: Option<[u8; 32]>,
}

/// Why a configuration was refused.
#[derive(Clone, Debug, PartialEq, Eq)]
pub enum ConfigError {
    /// The server's private key is no key; the message says why.
    InvalidPrivateKey(String),
    /// The public key of the peer at this place in the list is no key; the message says
    /// why.
    InvalidPeerKey(usize, String),
    /// The peer at this place in the list has the public key of an earlier one.
    DuplicatePeer(usize),
}

/// The mathematical value of a [`ConfigError`].
pub enum ConfigErrorView {
    InvalidPrivateKey(Seq<char>),
    InvalidPeerKey(usize, Seq<char>),
    DuplicatePeer(usize),
}

impl View for ConfigError {
    type V = ConfigErrorView;

    open spec fn view(&self) -> ConfigErrorView {
        match *self {
            ConfigError::InvalidPrivateKey(message) => ConfigErrorView::InvalidPrivateKey(message@),
            ConfigError::InvalidPeerKey(index, message) => ConfigErrorView::InvalidPeerKey(
                index,
                message@,
            ),
            ConfigError::DuplicatePeer(index) => ConfigErrorView::DuplicatePeer(index),
        }
    }
}

/// The keys of a server, read from their texts. The private key is shared with every
/// tunnel.
pub struct WireguardConfig {
    pub private_key: Arc<X25519SecretKey>,
    pub peers: Vec<Peer>,
}

/// The public keys of a list of peers, in the list's order.
pub open spec fn peer_keys(peers: Seq<Peer>) -> Seq<Seq<u8>> {
    Seq::new(peers.len(), |i: int| public_key_bytes(*peers[i].public_key))
}

/// True if the key at place `j` also stands at an earlier place.
pub open spec fn is_repeat(keys: Seq<Seq<u8>>, j: int) -> bool {
    exists|i: int| 0 <= i < j && #[trigger] keys[i] == keys[j]
}

/// True if no key stands at two places.
pub open spec fn all_distinct(keys: Seq<Seq<u8>>) -> bool {
    forall|j: int| 0 <= j < keys.len() ==> !#[trigger] is_repeat(keys, j)
}

/// True if the two slices hold the same bytes.
fn same_bytes(a: &[u8], b: &[u8]) -> (same: bool)
    ensures
        same == (a@ == b@),
{
    if a.len() != b.len() {
        return false;
    }
    let mut i: usize = 0;
    while i < a.len()
        invariant
            i <= a.len(),
            a.len() == b.len(),
            forall|k: int| 0 <= k < i ==> a@[k] == b@[k],
        decreases a.len() - i,
    {
        if a[i] != b[i] {
            return false;
        }
        i += 1;
    }
    assert(a@ =~= b@);
    true
}

impl WireguardConfig {
    /// Reads the server's private key and each peer's public key from their texts. The
    /// private key is read first, then the peers' keys in order; the first text that is
    /// refused decides the error, which carries the message of the refusal.
    pub fn parse(private_key: String, peer_public_keys: Vec<(String, Option<[u8; 32]>)>) -> (parsed:
        Result<WireguardConfig, ConfigError>)
        ensures
            match parsed {
                Ok(config) => {
                    &&& key_of_text(private_key@) == parsed_key(
                        secret_key_bytes(*config.private_key),
                    )
                    &&& config.peers@.len() == peer_public_keys@.len()
                    &&& forall|i: int|
                        0 <= i < peer_public_keys@.len() ==> {
                            &&& key_of_text(#[trigger] peer_public_keys@[i].0@) == parsed_key(
                                public_key_bytes(*config.peers@[i].public_key),
                            )
                            &&& config.peers@[i].preshared_key == peer_public_keys@[i].1
                        }
                },
                Err(error) => match error@ {
                    ConfigErrorView::InvalidPrivateKey(message) => key_of_text(private_key@)
                        == refused_key(message),
                    ConfigErrorView::InvalidPeerKey(index, message) => {
                        &&& key_of_text(private_key@) is Ok
                        &&& index < peer_public_keys@.len()
                        &&& key_of_text(peer_public_keys@[index as int].0@) == refused_key(message)
                        &&& forall|j: int|
                            0 <= j < index ==> key_of_text(
                                #[trigger] peer_public_keys@[j].0@,
                            ) is Ok
                    },
                    ConfigErrorView::DuplicatePeer(_) => false,
                },
            },
    {
        let secret = match parse_secret_key(private_key.as_str()) {
            Ok(key) => key,
            Err(message) => {
                return Err(ConfigError::InvalidPrivateKey(message));
            },
        };
        let mut peers: Vec<Peer> = Vec::new();
        let mut i: usize = 0;
        while i < peer_public_keys.len()
            invariant
                i <= peer_public_keys@.len(),
                peers@.len() == i,
                key_of_text(private_key@) == parsed_key(secret_key_bytes(secret)),
                forall|k: int|
                    0 <= k < i ==> {
                        &&& key_of_text(#[trigger] peer_public_keys@[k].0@) == parsed_key(
                            public_key_bytes(*peers@[k].public_key),
                        )
                        &&& peers@[k].preshared_key == peer_public_keys@[k].1
                    },
            decreases peer_public_keys@.len() - i,
        {
            let entry = &peer_public_keys[i];
            match parse_public_key(entry.0.as_str()) {
                Ok(key) => {
                    peers.push(Peer { public_key: Arc::new(key), preshared_key: entry.1 });
                },
                Err(message) => {
                    return Err(ConfigError::InvalidPeerKey(i, message));
                },
            }
            i += 1;
        }
        Ok(WireguardConfig { private_key: Arc::new(secret), peers })
    }

    /// The place of the first peer whose public key an earlier peer has, if there is one.
    pub fn first_repeated_peer(&self) -> (found: Option<usize>)
        ensures
            found is None <==> all_distinct(peer_keys(self.peers@)),
            found matches Some(j) ==> {
                &&& j < self.peers@.len()
                &&& is_repeat(peer_keys(self.peers@), j as int)
                &&& forall|k: int| 0 <= k < j ==> !#[trigger] is_repeat(peer_keys(self.peers@), k)
            },
    {
        let ghost keys = peer_keys(self.peers@);
        let mut j: usize = 0;
        while j < self.peers.len()
            invariant
                j <= self.peers@.len(),
                keys == peer_keys(self.peers@),
                forall|k: int| 0 <= k < j ==> !#[trigger] is_repeat(keys, k),
            decreases self.peers@.len() - j,
        {
            let mut i: usize = 0;
            while i < j
                invariant
                    i <= j,
                    j < self.peers@.len(),
                    keys == peer_keys(self.peers@),
                    forall|k: int| 0 <= k < j ==> !#[trigger] is_repeat(keys, k),
                    forall|k: int| 0 <= k < i ==> #[trigger] keys[k] != keys[j as int],
                decreases j - i,
            {
                if same_bytes(self.peers[i].public_key.as_bytes(), self.peers[j].public_key.as_bytes()) {
                    assert(keys[i as int] == keys[j as int]);
                    assert(is_repeat(keys, j as int) && j < keys.len());
                    return Some(j);
                }
                i += 1;
            }
            j += 1;
        }
        None
    }
}

/// What is to be signalled when the server stops, in this order.
#[derive(Clone, Copy, Debug, PartialEq, Eq, Structural)]
pub enum StopSignal {
    /// Wake the WireGuard worker so that it ends.
    WireGuard,
    /// Wake the TCP/IP worker so that it ends.
    Tcp,
    /// Cancel the task that hands events to the embedding application.
    Dispatcher,
}

/// What the embedding application is to be called with for an event.
#[derive(Clone, Debug, PartialEq, Eq)]
pub enum Notification {
    /// Call the connection handler with this stream, as its reader and as its writer.
    HandleConnection(TcpStream),
    /// Call the datagram handler with the payload, the source and the destination.
    ReceiveDatagram { data: Vec<u8>, src_addr: SocketAddress, dst_addr: SocketAddress },
}

/// The mathematical value of a [`Notification`].
pub enum NotificationView {
    HandleConnection(TcpStream),
    ReceiveDatagram { data: Seq<u8>, src_addr: SocketAddress, dst_addr: SocketAddress },
}

impl View for Notification {
    type V = NotificationView;

    open spec fn view(&self) -> NotificationView {
        match *self {
            Notification::HandleConnection(stream) => NotificationView::HandleConnection(stream),
            Notification::ReceiveDatagram {
                data,
                src_addr,
                dst_addr,
            } => NotificationView::ReceiveDatagram { data: data@, src_addr, dst_addr },
        }
    }
}

/// A WireGuard server, as the embedding application holds it.
pub struct WireguardServer {
    /// The address the UDP socket is bound to.
    pub local_addr: SocketAddress,
    pub private_key: Arc<X25519SecretKey>,
    /// The peers, each found by its place in the list.
    pub peers: Vec<Peer>,
    /// True once [`WireguardServer::stop`] was called.
    pub stopped: bool,
}

/// The notification that an event calls for, on a server bound to `local_addr`.
pub open spec fn notification_for(
    local_addr: SocketAddress,
    event: TransportEventView,
) -> NotificationView {
    match event {
        TransportEventView::ConnectionEstablished {
            connection_id,
            src_addr,
            dst_addr,
        } => NotificationView::HandleConnection(
            TcpStream {
                connection_id,
                peername: src_addr,
                sockname: local_addr,
                original_dst: dst_addr,
            },
        ),
        TransportEventView::DatagramReceived {
            data,
            src_addr,
            dst_addr,
        } => NotificationView::ReceiveDatagram { data, src_addr, dst_addr },
    }
}

impl WireguardServer {
    /// True if no two peers have the same public key.
    pub open spec fn wf(&self) -> bool {
        all_distinct(peer_keys(self.peers@))
    }

    /// Starts a server on a bound address from keys that were read. Two peers with one
    /// public key are refused, with the place of the later one; otherwise the server
    /// holds the keys as given and runs.
    pub fn init(config: WireguardConfig, local_addr: SocketAddress) -> (started: Result<
        WireguardServer,
        ConfigError,
    >)
        ensures
            match started {
                Ok(server) => {
                    &&& all_distinct(peer_keys(config.peers@))
                    &&& server.wf()
                    &&& server.local_addr == local_addr
                    &&& server.private_key == config.private_key
                    &&& server.peers == config.peers
                    &&& !server.stopped
                },
                Err(error) => error@ matches ConfigErrorView::DuplicatePeer(j) && {
                    &&& j < config.peers@.len()
                    &&& is_repeat(peer_keys(config.peers@), j as int)
                    &&& forall|k: int|
                        0 <= k < j ==> !#[trigger] is_repeat(peer_keys(config.peers@), k)
                },
            },
    {
        match config.first_repeated_peer() {
            Some(j) => Err(ConfigError::DuplicatePeer(j)),
            None => Ok(
                WireguardServer {
                    local_addr,
                    private_key: config.private_key,
                    peers: config.peers,
                    stopped: false,
                },
            ),
        }
    }

    /// The place of the peer with this public key, if the server has such a peer.
    pub fn peer_with_key(&self, key: &[u8]) -> (found: Option<usize>)
        ensures
            found matches Some(i) ==> i < self.peers@.len() && peer_keys(self.peers@)[i as int]
                == key@,
            found matches Some(i) ==> forall|k: int|
                0 <= k < i ==> peer_keys(self.peers@)[k] != key@,
            found is None ==> forall|k: int|
                0 <= k < self.peers@.len() ==> peer_keys(self.peers@)[k] != key@,
    {
        let mut i: usize = 0;
        while i < self.peers.len()
            invariant
                i <= self.peers@.len(),
                forall|k: int| 0 <= k < i ==> peer_keys(self.peers@)[k] != key@,
            decreases self.peers@.len() - i,
        {
            if same_bytes(self.peers[i].public_key.as_bytes(), key) {
                return Some(i);
            }
            i += 1;
        }
        None
    }

    /// The command that sends a UDP datagram from `src_addr` to `dst_addr`; refused once
    /// the server has stopped.
    pub fn send_datagram(
        &self,
        data: Vec<u8>,
        src_addr: SocketAddress,
        dst_addr: SocketAddress,
    ) -> (command: Result<TransportCommand, StreamError>)
        ensures
            !self.stopped ==> (command matches Ok(sent) && sent@
                == TransportCommandView::SendDatagram { data: data@, src_addr, dst_addr }),
            self.stopped ==> (command matches Err(error) && error@
                == StreamErrorView::ServerShutDown),
    {
        if self.stopped {
            Err(StreamError::ServerShutDown)
        } else {
            Ok(TransportCommand::SendDatagram { data, src_addr, dst_addr })
        }
    }

    /// The server after [`WireguardServer::stop`].
    pub open spec fn stopped_spec(self) -> WireguardServer {
        WireguardServer { stopped: true, ..self }
    }

    /// Stops the server and says what is to be signalled: both workers, then the
    /// dispatcher. A server that has stopped stays as it is, and the signals, all
    /// harmless to repeat, are the same.
    pub fn stop(&mut self) -> (signals: Vec<StopSignal>)
        ensures
            *final(self) == old(self).stopped_spec(),
            signals@ == seq![StopSignal::WireGuard, StopSignal::Tcp, StopSignal::Dispatcher],
    {
        self.stopped = true;
        let mut signals: Vec<StopSignal> = Vec::new();
        signals.push(StopSignal::WireGuard);
        signals.push(StopSignal::Tcp);
        signals.push(StopSignal::Dispatcher);
        assert(signals@ =~= seq![StopSignal::WireGuard, StopSignal::Tcp, StopSignal::Dispatcher]);
        signals
    }

    /// The server as text: the address it listens on.
    pub open spec fn text(self) -> Seq<char> {
        "WireguardServer("@ + self.local_addr.text() + seq![')']
    }

    /// The server as text, for display.
    pub fn repr(&self) -> (text: String)
        ensures
            text@ == self.text(),
    {
        let mut text = String::new();
        push_text(&mut text, "WireguardServer(");
        push_text(&mut text, self.local_addr.to_text().as_str());
        push_char(&mut text, ')');
        assert(text@ =~= self.text());
        text
    }

    /// The address the server listens on.
    pub fn getsockname(&self) -> (address: SocketAddress)
        ensures
            address == self.local_addr,
    {
        self.local_addr
    }

    /// What the embedding application is to be called with for an event: for a new
    /// connection, the connection handler with a stream whose peer is the event's
    /// source, whose own address is the server's and whose original destination is the
    /// event's destination; for a datagram, the datagram handler.
    pub fn dispatch(&self, event: TransportEvent) -> (notification: Notification)
        ensures
            notification@ == notification_for(self.local_addr, event@),
    {
        match event {
            TransportEvent::ConnectionEstablished {
                connection_id,
                src_addr,
                dst_addr,
            } => Notification::HandleConnection(
                TcpStream {
                    connection_id,
                    peername: src_addr,
                    sockname: self.local_addr,
                    original_dst: dst_addr,
                },
            ),
            TransportEvent::DatagramReceived {
                data,
                src_addr,
                dst_addr,
            } => Notification::ReceiveDatagram { data, src_addr, dst_addr },
        }
    }
}

/// Stopping twice is stopping once.
pub proof fn lemma_stop_is_idempotent(server: WireguardServer)
    ensures
        server.stopped_spec().stopped_spec() == server.stopped_spec(),
        server.stopped_spec().stopped,
{
}

} // verus!
