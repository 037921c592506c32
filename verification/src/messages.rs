//! What travels between the embedding application and the network workers: commands
//! one way, events the other.

use crate::address::SocketAddress;
use vstd::prelude::*;

verus! {

/// Identifies an accepted TCP connection for the lifetime of the server.
pub type ConnectionId = u32;

/// How many events may wait for the embedding application. Further connections are
/// not announced, and further datagrams not handed on, until it has taken some.
pub const EVENT_QUEUE_CAPACITY: usize = 64;

/// What the network workers tell the embedding application.
#[derive(Clone, Debug, PartialEq, Eq)]
pub enum TransportEvent {
    /// A TCP connection was accepted on behalf of `dst_addr`.
    ConnectionEstablished { connection_id: ConnectionId, src_addr: SocketAddress, dst_addr: SocketAddress },
    /// A UDP datagram arrived.
    DatagramReceived { data: Vec<u8>, src_addr: SocketAddress, dst_addr: SocketAddress },
}

/// The mathematical value of a [`TransportEvent`].
pub enum TransportEventView {
    ConnectionEstablished { connection_id: ConnectionId, src_addr: SocketAddress, dst_addr: SocketAddress },
    DatagramReceived { data: Seq<u8>, src_addr: SocketAddress, dst_addr: SocketAddress },
}

impl View for TransportEvent {
    type V = TransportEventView;

    open spec fn view(&self) -> TransportEventView {
        match *self {
            TransportEvent::ConnectionEstablished {
                connection_id,
                src_addr,
                dst_addr,
            } => TransportEventView::ConnectionEstablished { connection_id, src_addr, dst_addr },
            TransportEvent::DatagramReceived {
                data,
                src_addr,
                dst_addr,
            } => TransportEventView::DatagramReceived { data: data@, src_addr, dst_addr },
        }
    }
}

/// What the embedding application asks of the network workers. A read and a drain are
/// answered later; the channel for the answer is kept by whoever sends the command.
#[derive(Clone, Debug, PartialEq, Eq)]
pub enum TransportCommand {
    /// Read up to this many bytes from the connection.
    ReadData(ConnectionId, u32),
    /// Queue these bytes on the connection.
    WriteData(ConnectionId, Vec<u8>),
    /// Answer when the queued bytes have been taken by the stack.
    DrainWriter(ConnectionId),
    /// Close the connection: half (`true`: no more writes, reads go on) or fully.
    CloseConnection(ConnectionId, bool),
    /// Send a UDP datagram from `src_addr` to `dst_addr`.
    SendDatagram { data: Vec<u8>, src_addr: SocketAddress, dst_addr: SocketAddress },
}

/// The mathematical value of a [`TransportCommand`].
pub enum TransportCommandView {
    ReadData(ConnectionId, u32),
    WriteData(ConnectionId, Seq<u8>),
    DrainWriter(ConnectionId),
    CloseConnection(ConnectionId, bool),
    SendDatagram { data: Seq<u8>, src_addr: SocketAddress, dst_addr: SocketAddress },
}

impl View for TransportCommand {
    type V = TransportCommandView;

    open spec fn view(&self) -> TransportCommandView {
        match *self {
            TransportCommand::ReadData(id, n) => TransportCommandView::ReadData(id, n),
            TransportCommand::WriteData(id, data) => TransportCommandView::WriteData(id, data@),
            TransportCommand::DrainWriter(id) => TransportCommandView::DrainWriter(id),
            TransportCommand::CloseConnection(id, half) => TransportCommandView::CloseConnection(
                id,
                half,
            ),
            TransportCommand::SendDatagram {
                data,
                src_addr,
                dst_addr,
            } => TransportCommandView::SendDatagram { data: data@, src_addr, dst_addr },
        }
    }
}

impl TransportCommand {
    /// The connection that the command is about, if it is about one.
    pub open spec fn connection_spec(self) -> Option<ConnectionId> {
        match self {
            TransportCommand::ReadData(id, _) => Some(id),
            TransportCommand::WriteData(id, _) => Some(id),
            TransportCommand::DrainWriter(id) => Some(id),
            TransportCommand::CloseConnection(id, _) => Some(id),
            TransportCommand::SendDatagram { .. } => None,
        }
    }

    /// The connection that the command is about, if it is about one.
    pub fn connection(&self) -> (id: Option<ConnectionId>)
        ensures
            id == self.connection_spec(),
    {
        match self {
            TransportCommand::ReadData(id, _) => Some(*id),
            TransportCommand::WriteData(id, _) => Some(*id),
            TransportCommand::DrainWriter(id) => Some(*id),
            TransportCommand::CloseConnection(id, _) => Some(*id),
            TransportCommand::SendDatagram { .. } => None,
        }
    }
}

} // verus!
