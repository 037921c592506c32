//! The handle that the embedding application holds for one TCP connection, shaped after
//! a stream reader and writer: each method says which command is sent for it, and what
//! the caller is told once the outcome is known.

use crate::address::SocketAddress;
use crate::messages::ConnectionId;
use crate::messages::TransportCommand;
use crate::messages::TransportCommandView;
use crate::text::decimal_text;
use crate::text::push_char;
use crate::text::push_decimal;
use crate::text::push_text;
use vstd::prelude::*;

verus! {

/// Why a call on a stream or on the server failed.
#[derive(Clone, Debug, PartialEq, Eq)]
pub enum StreamError {
    /// The command could not be handed over: the server has been shut down.
    ServerShutDown,
    /// The answer never came: the connection was closed.
    ConnectionClosed,
    /// No piece of information goes by this name.
    UnknownInfo(String),
}

/// The mathematical value of a [`StreamError`].
pub enum StreamErrorView {
    ServerShutDown,
    ConnectionClosed,
    UnknownInfo(Seq<char>),
}

impl View for StreamError {
    type V = StreamErrorView;

    open spec fn view(&self) -> StreamErrorView {
        match *self {
            StreamError::ServerShutDown => StreamErrorView::ServerShutDown,
            StreamError::ConnectionClosed => StreamErrorView::ConnectionClosed,
            StreamError::UnknownInfo(name) => StreamErrorView::UnknownInfo(name@),
        }
    }
}

impl StreamErrorView {
    /// The message shown to the embedding application.
    pub open spec fn message(self) -> Seq<char> {
        match self {
            StreamErrorView::ServerShutDown => "WireGuard server has been shut down."@,
            StreamErrorView::ConnectionClosed => "connection closed"@,
            StreamErrorView::UnknownInfo(name) => name,
        }
    }
}

impl StreamError {
    /// The message shown to the embedding application; for an unknown name, the name.
    pub fn message(&self) -> (text: String)
        ensures
            text@ == self@.message(),
    {
        match self {
            StreamError::ServerShutDown => "WireGuard server has been shut down.".to_owned(),
            StreamError::ConnectionClosed => "connection closed".to_owned(),
            StreamError::UnknownInfo(name) => name.clone(),
        }
    }
}

/// What the caller is told after a command was handed to the command queue: nothing if
/// the queue took it, and that the server is shut down if it did not.
pub fn event_queue_unavailable(taken: bool) -> (outcome: Result<(), StreamError>)
    ensures
        taken ==> outcome is Ok,
        !taken ==> (outcome matches Err(error) && error@ == StreamErrorView::ServerShutDown),
{
    if taken {
        Ok(())
    } else {
        Err(StreamError::ServerShutDown)
    }
}

/// What the caller is told once the wait for an answer is over: the answer if one came,
/// and that the connection is closed if the channel was dropped without one.
pub fn connection_closed<T>(answer: Option<T>) -> (outcome: Result<T, StreamError>)
    ensures
        answer matches Some(value) ==> outcome == Ok::<T, StreamError>(value),
        answer is None ==> (outcome matches Err(error) && error@
            == StreamErrorView::ConnectionClosed),
{
    match answer {
        Some(value) => Ok(value),
        None => Err(StreamError::ConnectionClosed),
    }
}

/// One accepted TCP connection, as the embedding application sees it.
#[derive(Clone, Copy, Debug, PartialEq, Eq)]
pub struct TcpStream {
    pub connection_id: ConnectionId,
    /// The peer's address: where the connection came from.
    pub peername: SocketAddress,
    /// The address the server listens on; it stands for the tunnel.
    pub sockname: SocketAddress,
    /// The address the peer dialled, before the connection was intercepted.
    pub original_dst: SocketAddress,
}

/// The three names that [`TcpStream::get_extra_info`] knows.
pub open spec fn is_info_name(name: Seq<char>) -> bool {
    name == "peername"@ || name == "sockname"@ || name == "original_dst"@
}

impl TcpStream {
    /// The address that goes by `name`, for a name that [`is_info_name`] accepts.
    pub open spec fn info(self, name: Seq<char>) -> SocketAddress {
        if name == "peername"@ {
            self.peername
        } else if name == "sockname"@ {
            self.sockname
        } else {
            self.original_dst
        }
    }

    /// The stream as text: its identifier and its three addresses.
    pub open spec fn text(self) -> Seq<char> {
        "TcpStream("@ + decimal_text(self.connection_id as nat) + ", peer="@
            + self.peername.text() + ", sock="@ + self.sockname.text() + ", dst="@
            + self.original_dst.text() + seq![')']
    }

    /// The stream as text, for display.
    pub fn repr(&self) -> (text: String)
        ensures
            text@ == self.text(),
    {
        let mut text = String::new();
        push_text(&mut text, "TcpStream(");
        push_decimal(&mut text, self.connection_id);
        push_text(&mut text, ", peer=");
        push_text(&mut text, self.peername.to_text().as_str());
        push_text(&mut text, ", sock=");
        push_text(&mut text, self.sockname.to_text().as_str());
        push_text(&mut text, ", dst=");
        push_text(&mut text, self.original_dst.to_text().as_str());
        push_char(&mut text, ')');
        assert(text@ =~= self.text());
        text
    }

    /// The command that asks for up to `n` bytes.
    pub fn read(&self, n: u32) -> (command: TransportCommand)
        ensures
            command@ == TransportCommandView::ReadData(self.connection_id, n),
    {
        TransportCommand::ReadData(self.connection_id, n)
    }

    /// The command that queues `data` for the peer.
    pub fn write(&self, data: Vec<u8>) -> (command: TransportCommand)
        ensures
            command@ == TransportCommandView::WriteData(self.connection_id, data@),
    {
        TransportCommand::WriteData(self.connection_id, data)
    }

    /// The command that asks to be told when the queued bytes have been taken.
    pub fn drain(&self) -> (command: TransportCommand)
        ensures
            command@ == TransportCommandView::DrainWriter(self.connection_id),
    {
        TransportCommand::DrainWriter(self.connection_id)
    }

    /// The command that closes the writing half.
    pub fn write_eof(&self) -> (command: TransportCommand)
        ensures
            command@ == TransportCommandView::CloseConnection(self.connection_id, true),
    {
        TransportCommand::CloseConnection(self.connection_id, true)
    }

    /// The command that closes the connection.
    pub fn close(&self) -> (command: TransportCommand)
        ensures
            command@ == TransportCommandView::CloseConnection(self.connection_id, false),
    {
        TransportCommand::CloseConnection(self.connection_id, false)
    }

    /// One of the connection's addresses by name: `peername`, `sockname` or
    /// `original_dst`. Any other name is an error that carries the name.
    pub fn get_extra_info(&self, name: String) -> (found: Result<SocketAddress, StreamError>)
        ensures
            is_info_name(name@) ==> found == Ok::<SocketAddress, StreamError>(self.info(name@)),
            !is_info_name(name@) ==> (found matches Err(error) && error@
                == StreamErrorView::UnknownInfo(name@)),
    {
        if name == "peername".to_owned() {
            Ok(self.peername)
        } else if name == "sockname".to_owned() {
            Ok(self.sockname)
        } else if name == "original_dst".to_owned() {
            Ok(self.original_dst)
        } else {
            Err(StreamError::UnknownInfo(name))
        }
    }
}

} // verus!
