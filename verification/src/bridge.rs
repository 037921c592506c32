//! The bridge between the embedding application and the TCP/IP stack: the table of the
//! connections that are open, the identifier each one got when it was accepted, and what
//! every command from the application and every event from the stack does to them.
//!
//! The bridge decides; it does no input or output. Whoever runs it hands it commands
//! and events one by one, and carries out what it answers.

use crate::address::SocketAddress;
use crate::connection::bytes_view;
use crate::connection::Connection;
use crate::connection::ConnectionView;
use crate::connection::DrainReply;
use crate::connection::ReadReply;
use crate::connection::ReadReplyView;
use crate::connection::Released;
use crate::messages::ConnectionId;
use crate::messages::TransportCommand;
use crate::messages::TransportCommandView;
use crate::messages::TransportEvent;
use crate::messages::TransportEventView;
use vstd::prelude::*;

verus! {

/// One more than the largest identifier a connection can have.
pub const ID_LIMIT: u64 = 0x1_0000_0000;

/// The bridge's state.
#[derive(Clone, Debug, PartialEq, Eq)]
pub struct TransportBridge {
    /// The identifier that the next connection gets; [`ID_LIMIT`] once all are used up.
    pub next_id: u64,
    /// The open connections, in the order in which they were accepted.
    pub connections: Vec<Connection>,
    /// The low-water mark that every connection is given.
    pub low_water: usize,
    /// True once the bridge was shut down.
    pub stopped: bool,
}

/// The mathematical value of a [`TransportBridge`].
pub struct BridgeView {
    pub next_id: u64,
    pub connections: Seq<ConnectionView>,
    pub low_water: usize,
    pub stopped: bool,
}

/// The values of a list of connections.
pub open spec fn views(connections: Seq<Connection>) -> Seq<ConnectionView> {
    Seq::new(connections.len(), |i: int| connections[i]@)
}

impl View for TransportBridge {
    type V = BridgeView;

    open spec fn view(&self) -> BridgeView {
        BridgeView {
            next_id: self.next_id,
            connections: views(self.connections@),
            low_water: self.low_water,
            stopped: self.stopped,
        }
    }
}

/// What is to be done about a command.
#[derive(Clone, Debug, PartialEq, Eq)]
pub enum Reaction {
    /// Answer the read with these bytes; none means that the peer has finished.
    ReadNow(Vec<u8>),
    /// Keep the read's reply channel: the bridge says later what it is answered with.
    ReadLater,
    /// Answer the drain.
    DrainNow,
    /// Keep the drain's reply channel: the bridge says later when it is answered.
    DrainLater,
    /// Refuse the reply channel with an error: a request of its kind waits already.
    Busy,
    /// The bytes were queued (`true`), or dropped because the writing half is closed.
    Written(bool),
    /// The writing half is closed; the peer is told once the stack has taken the rest.
    HalfClosed,
    /// The connection is closed and its identifier retired: give these waiters the
    /// closed signal, then close the socket.
    Retired(Released),
    /// Send this datagram through the stack.
    Datagram { data: Vec<u8>, src_addr: SocketAddress, dst_addr: SocketAddress },
    /// The connection is unknown or closed, or the bridge was shut down: the command is
    /// dropped, and its reply channel, if it has one, gets the closed signal.
    Closed,
}

/// The mathematical value of a [`Reaction`].
pub enum ReactionView {
    ReadNow(Seq<u8>),
    ReadLater,
    DrainNow,
    DrainLater,
    Busy,
    Written(bool),
    HalfClosed,
    Retired(Released),
    Datagram { data: Seq<u8>, src_addr: SocketAddress, dst_addr: SocketAddress },
    Closed,
}

impl View for Reaction {
    type V = ReactionView;

    open spec fn view(&self) -> ReactionView {
        match *self {
            Reaction::ReadNow(bytes) => ReactionView::ReadNow(bytes@),
            Reaction::ReadLater => ReactionView::ReadLater,
            Reaction::DrainNow => ReactionView::DrainNow,
            Reaction::DrainLater => ReactionView::DrainLater,
            Reaction::Busy => ReactionView::Busy,
            Reaction::Written(queued) => ReactionView::Written(queued),
            Reaction::HalfClosed => ReactionView::HalfClosed,
            Reaction::Retired(released) => ReactionView::Retired(released),
            Reaction::Datagram { data, src_addr, dst_addr } => ReactionView::Datagram {
                data: data@,
                src_addr,
                dst_addr,
            },
            Reaction::Closed => ReactionView::Closed,
        }
    }
}

/// The place of the first connection with this identifier, if there is one.
pub open spec fn index_of(connections: Seq<ConnectionView>, id: ConnectionId) -> Option<int>
    decreases connections.len(),
{
    if connections.len() == 0 {
        None
    } else if connections[0].id == id {
        Some(0)
    } else {
        match index_of(connections.drop_first(), id) {
            Some(i) => Some(i + 1),
            None => None,
        }
    }
}

/// The reaction that answers a read.
pub open spec fn read_reaction(reply: ReadReplyView) -> ReactionView {
    match reply {
        ReadReplyView::Data(bytes) => ReactionView::ReadNow(bytes),
        ReadReplyView::Later => ReactionView::ReadLater,
        ReadReplyView::Busy => ReactionView::Busy,
    }
}

/// The reaction that answers a drain.
pub open spec fn drain_reaction(reply: DrainReply) -> ReactionView {
    match reply {
        DrainReply::Done => ReactionView::DrainNow,
        DrainReply::Later => ReactionView::DrainLater,
        DrainReply::Busy => ReactionView::Busy,
    }
}

impl BridgeView {
    /// A bridge with no connection, whose first connection gets the identifier 0.
    pub open spec fn fresh(low_water: usize) -> BridgeView {
        BridgeView { next_id: 0, connections: Seq::empty(), low_water, stopped: false }
    }

    /// Identifiers grow along the table and stay below the next one; every connection
    /// is well-formed and has the bridge's low-water mark; after shutdown the table is
    /// empty.
    pub open spec fn wf(self) -> bool {
        &&& self.next_id <= ID_LIMIT
        &&& forall|i: int|
            0 <= i < self.connections.len() ==> {
                &&& (#[trigger] self.connections[i]).id < self.next_id
                &&& self.connections[i].wf()
                &&& self.connections[i].low_water == self.low_water
            }
        &&& forall|i: int, j: int|
            0 <= i < j < self.connections.len() ==> (#[trigger] self.connections[i]).id < (
            #[trigger] self.connections[j]).id
        &&& self.stopped ==> self.connections.len() == 0
    }

    /// True if a connection with this identifier is open.
    pub open spec fn has(self, id: ConnectionId) -> bool {
        index_of(self.connections, id) is Some
    }

    /// The open connection with this identifier.
    pub open spec fn connection(self, id: ConnectionId) -> ConnectionView
        recommends
            self.has(id),
    {
        self.connections[index_of(self.connections, id)->Some_0]
    }

    /// The bridge with the connection of this identifier replaced.
    pub open spec fn with(self, id: ConnectionId, connection: ConnectionView) -> BridgeView {
        match index_of(self.connections, id) {
            Some(i) => BridgeView { connections: self.connections.update(i, connection), ..self },
            None => self,
        }
    }

    /// The bridge without the connection of this identifier.
    pub open spec fn without(self, id: ConnectionId) -> BridgeView {
        match index_of(self.connections, id) {
            Some(i) => BridgeView { connections: self.connections.remove(i), ..self },
            None => self,
        }
    }

    /// True if the bridge works on the connection with this identifier: it has not been
    /// shut down and the connection is open.
    pub open spec fn serves(self, id: ConnectionId) -> bool {
        !self.stopped && self.has(id)
    }

    /// True if a connection that the stack accepted is entered in the table: the bridge runs, the
    /// event channel has room, and an identifier is left.
    pub open spec fn establishes(self, event_room: bool) -> bool {
        !self.stopped && event_room && self.next_id < ID_LIMIT
    }

    /// The state after the stack accepted a connection.
    pub open spec fn establish(
        self,
        src_addr: SocketAddress,
        dst_addr: SocketAddress,
        event_room: bool,
    ) -> BridgeView {
        if self.establishes(event_room) {
            BridgeView {
                next_id: (self.next_id + 1) as u64,
                connections: self.connections.push(
                    ConnectionView::fresh(
                        self.next_id as ConnectionId,
                        src_addr,
                        dst_addr,
                        self.low_water,
                    ),
                ),
                ..self
            }
        } else {
            self
        }
    }

    /// The event that tells the embedding application of a connection that was entered
    /// in the table.
    pub open spec fn establish_event(
        self,
        src_addr: SocketAddress,
        dst_addr: SocketAddress,
        event_room: bool,
    ) -> Option<TransportEventView> {
        if self.establishes(event_room) {
            Some(
                TransportEventView::ConnectionEstablished {
                    connection_id: self.next_id as ConnectionId,
                    src_addr,
                    dst_addr,
                },
            )
        } else {
            None
        }
    }

    /// The state after a command.
    pub open spec fn command(self, command: TransportCommandView) -> BridgeView {
        match command {
            TransportCommandView::ReadData(id, n) => if self.serves(id) {
                self.with(id, self.connection(id).read(n))
            } else {
                self
            },
            TransportCommandView::WriteData(id, data) => if self.serves(id) {
                self.with(id, self.connection(id).write(data))
            } else {
                self
            },
            TransportCommandView::DrainWriter(id) => if self.serves(id) {
                self.with(id, self.connection(id).drain())
            } else {
                self
            },
            TransportCommandView::CloseConnection(id, half) => if self.serves(id) {
                if half {
                    self.with(id, self.connection(id).close_write())
                } else {
                    self.without(id)
                }
            } else {
                self
            },
            TransportCommandView::SendDatagram { .. } => self,
        }
    }

    /// What is to be done about a command.
    pub open spec fn reaction(self, command: TransportCommandView) -> ReactionView {
        match command {
            TransportCommandView::ReadData(id, n) => if self.serves(id) {
                read_reaction(self.connection(id).read_reply(n))
            } else {
                ReactionView::Closed
            },
            TransportCommandView::WriteData(id, data) => if self.serves(id) {
                ReactionView::Written(!self.connection(id).write_closed)
            } else {
                ReactionView::Closed
            },
            TransportCommandView::DrainWriter(id) => if self.serves(id) {
                drain_reaction(self.connection(id).drain_reply())
            } else {
                ReactionView::Closed
            },
            TransportCommandView::CloseConnection(id, half) => if self.serves(id) {
                if half {
                    ReactionView::HalfClosed
                } else {
                    ReactionView::Retired(self.connection(id).released())
                }
            } else {
                ReactionView::Closed
            },
            TransportCommandView::SendDatagram { data, src_addr, dst_addr } => if self.stopped {
                ReactionView::Closed
            } else {
                ReactionView::Datagram { data, src_addr, dst_addr }
            },
        }
    }

    /// The state after bytes arrived from the peer of a connection.
    pub open spec fn deliver(self, id: ConnectionId, data: Seq<u8>) -> BridgeView {
        if self.serves(id) {
            self.with(id, self.connection(id).deliver(data))
        } else {
            self
        }
    }

    /// The bytes that answer the connection's waiting read when bytes arrive, if a read
    /// waits.
    pub open spec fn deliver_reply(self, id: ConnectionId, data: Seq<u8>) -> Option<Seq<u8>> {
        if self.serves(id) {
            self.connection(id).deliver_reply(data)
        } else {
            None
        }
    }

    /// The state after the peer of a connection finished.
    pub open spec fn finish(self, id: ConnectionId) -> BridgeView {
        if self.serves(id) {
            self.with(id, self.connection(id).finish())
        } else {
            self
        }
    }

    /// The bytes that answer the connection's waiting read when the peer finishes, if a
    /// read waits.
    pub open spec fn finish_reply(self, id: ConnectionId) -> Option<Seq<u8>> {
        if self.serves(id) {
            self.connection(id).finish_reply()
        } else {
            None
        }
    }

    /// The state after the stack took bytes of a connection.
    pub open spec fn accepted(self, id: ConnectionId, n: usize) -> BridgeView {
        if self.serves(id) {
            self.with(id, self.connection(id).accepted(n))
        } else {
            self
        }
    }

    /// True if the connection's waiting drain is answered when the stack takes bytes.
    pub open spec fn accepted_reply(self, id: ConnectionId, n: usize) -> bool {
        self.serves(id) && self.connection(id).accepted_reply(n)
    }

    /// The state after the stack ended a connection.
    pub open spec fn reset(self, id: ConnectionId) -> BridgeView {
        if self.serves(id) {
            self.without(id)
        } else {
            self
        }
    }

    /// The waiters left behind when the stack ends a connection, if it was open.
    pub open spec fn reset_reply(self, id: ConnectionId) -> Option<Released> {
        if self.serves(id) {
            Some(self.connection(id).released())
        } else {
            None
        }
    }

    /// The state after shutdown: no connection, and none ever again.
    pub open spec fn shutdown(self) -> BridgeView {
        BridgeView { connections: Seq::empty(), stopped: true, ..self }
    }

    /// The waiters left behind at shutdown: those of every open connection, in the
    /// order of the table.
    pub open spec fn shutdown_reply(self) -> Seq<Released> {
        Seq::new(self.connections.len(), |i: int| self.connections[i].released())
    }
}

/// True if `i` is the place of the first connection with this identifier.
pub open spec fn first_at(connections: Seq<ConnectionView>, id: ConnectionId, i: int) -> bool {
    &&& 0 <= i < connections.len()
    &&& connections[i].id == id
    &&& forall|k: int| 0 <= k < i ==> (#[trigger] connections[k]).id != id
}

/// [`index_of`] finds the first connection with the identifier.
pub proof fn lemma_index_of_found(connections: Seq<ConnectionView>, id: ConnectionId, i: int)
    requires
        first_at(connections, id, i),
    ensures
        index_of(connections, id) == Some(i),
    decreases connections.len(),
{
    if i > 0 {
        let rest = connections.drop_first();
        assert(connections[0].id != id);
        assert forall|k: int| 0 <= k < i - 1 implies (#[trigger] rest[k]).id != id by {
            assert(rest[k] == connections[k + 1]);
        }
        lemma_index_of_found(rest, id, i - 1);
    }
}

/// [`index_of`] finds nothing only where no connection has the identifier.
pub proof fn lemma_index_of_absent(connections: Seq<ConnectionView>, id: ConnectionId)
    requires
        forall|k: int| 0 <= k < connections.len() ==> (#[trigger] connections[k]).id != id,
    ensures
        index_of(connections, id) is None,
    decreases connections.len(),
{
    if connections.len() > 0 {
        let rest = connections.drop_first();
        assert(connections[0].id != id);
        assert forall|k: int| 0 <= k < rest.len() implies (#[trigger] rest[k]).id != id by {
            assert(rest[k] == connections[k + 1]);
        }
        lemma_index_of_absent(rest, id);
    }
}

/// What [`index_of`] finds is a place in the table, of a connection with the
/// identifier.
pub proof fn lemma_index_of_is_first(connections: Seq<ConnectionView>, id: ConnectionId)
    ensures
        index_of(connections, id) matches Some(i) ==> first_at(connections, id, i),
        index_of(connections, id) is None ==> forall|k: int|
            0 <= k < connections.len() ==> (#[trigger] connections[k]).id != id,
    decreases connections.len(),
{
    if connections.len() > 0 && connections[0].id != id {
        let rest = connections.drop_first();
        lemma_index_of_is_first(rest, id);
        match index_of(rest, id) {
            Some(i) => {
                assert forall|k: int| 0 <= k < i + 1 implies (#[trigger] connections[k]).id
                    != id by {
                    if k > 0 {
                        assert(connections[k] == rest[k - 1]);
                    }
                }
                assert(connections[i + 1] == rest[i]);
            },
            None => {
                assert forall|k: int| 0 <= k < connections.len() implies (
                #[trigger] connections[k]).id != id by {
                    if k > 0 {
                        assert(connections[k] == rest[k - 1]);
                    }
                }
            },
        }
    }
}

impl TransportBridge {
    /// A bridge with no connection.
    pub fn new(low_water: usize) -> (bridge: TransportBridge)
        ensures
            bridge@ == BridgeView::fresh(low_water),
            bridge@.wf(),
    {
        let bridge = TransportBridge {
            next_id: 0,
            connections: Vec::new(),
            low_water,
            stopped: false,
        };
        assert(bridge@.connections =~= Seq::empty());
        bridge
    }

    /// The place of the connection with this identifier, if it is open.
    fn find(&self, id: ConnectionId) -> (found: Option<usize>)
        ensures
            found matches Some(i) ==> i < self.connections@.len() && index_of(self@.connections, id)
                == Some(i as int),
            found is None ==> index_of(self@.connections, id) is None,
    {
        let mut i: usize = 0;
        while i < self.connections.len()
            invariant
                i <= self.connections@.len(),
                forall|k: int| 0 <= k < i ==> (#[trigger] self@.connections[k]).id != id,
            decreases self.connections@.len() - i,
        {
            if self.connections[i].id == id {
                proof {
                    lemma_index_of_found(self@.connections, id, i as int);
                }
                return Some(i);
            }
            i += 1;
        }
        proof {
            lemma_index_of_absent(self@.connections, id);
        }
        None
    }

    /// The open connection with this identifier, if there is one and the bridge runs.
    pub fn get(&self, id: ConnectionId) -> (found: Option<&Connection>)
        ensures
            self@.serves(id) ==> (found matches Some(connection) && connection@
                == self@.connection(id)),
            !self@.serves(id) ==> found is None,
    {
        if self.stopped {
            return None;
        }
        match self.find(id) {
            Some(i) => Some(&self.connections[i]),
            None => None,
        }
    }

    /// The stack accepted a connection from `src_addr` that was meant for `dst_addr`.
    /// If the bridge runs, the event channel has room and an identifier is left, the
    /// connection is entered in the table under the next identifier, and the event that
    /// announces it is returned. Otherwise nothing changes: the connection is not
    /// entered now and may be offered again.
    pub fn establish(&mut self, src_addr: SocketAddress, dst_addr: SocketAddress, event_room: bool) -> (event:
        Option<TransportEvent>)
        ensures
            final(self)@ == old(self)@.establish(src_addr, dst_addr, event_room),
            match event {
                Some(e) => old(self)@.establish_event(src_addr, dst_addr, event_room) == Some(e@),
                None => old(self)@.establish_event(src_addr, dst_addr, event_room) is None,
            },
            old(self)@.wf() ==> final(self)@.wf(),
    {
        if self.stopped || !event_room || self.next_id >= ID_LIMIT {
            return None;
        }
        let id = self.next_id as ConnectionId;
        self.next_id = self.next_id + 1;
        self.connections.push(Connection::new(id, src_addr, dst_addr, self.low_water));
        assert(self@.connections =~= old(self)@.connections.push(
            ConnectionView::fresh(id, src_addr, dst_addr, self.low_water),
        ));
        Some(TransportEvent::ConnectionEstablished { connection_id: id, src_addr, dst_addr })
    }

    /// Removes the connection at place `i` and says which waiters it leaves behind.
    fn retire(&mut self, i: usize) -> (released: Released)
        requires
            i < old(self).connections@.len(),
        ensures
            released == old(self)@.connections[i as int].released(),
            final(self)@ == (BridgeView {
                connections: old(self)@.connections.remove(i as int),
                ..old(self)@
            }),
            old(self)@.wf() ==> final(self)@.wf(),
    {
        let connection = self.connections.remove(i);
        assert(self@.connections =~= old(self)@.connections.remove(i as int));
        connection.released()
    }

    /// A command from the embedding application. On a bridge that was shut down, and
    /// for a connection that is not open, nothing changes and the reaction is
    /// [`Reaction::Closed`]. Otherwise a read, a write, a drain and a half-close act on
    /// the connection as [`Connection`] says, a full close retires the connection and
    /// hands out its waiters, and a datagram is passed on to the stack.
    pub fn command(&mut self, command: TransportCommand) -> (reaction: Reaction)
        ensures
            final(self)@ == old(self)@.command(command@),
            reaction@ == old(self)@.reaction(command@),
            old(self)@.wf() ==> final(self)@.wf(),
    {
        if self.stopped {
            return Reaction::Closed;
        }
        match command {
            TransportCommand::ReadData(id, n) => match self.find(id) {
                Some(i) => {
                    let reply = self.connections[i].read(n);
                    assert(self@.connections =~= old(self)@.connections.update(
                        i as int,
                        old(self)@.connections[i as int].read(n),
                    ));
                    match reply {
                        ReadReply::Data(bytes) => Reaction::ReadNow(bytes),
                        ReadReply::Later => Reaction::ReadLater,
                        ReadReply::Busy => Reaction::Busy,
                    }
                },
                None => Reaction::Closed,
            },
            TransportCommand::WriteData(id, data) => match self.find(id) {
                Some(i) => {
                    let queued = self.connections[i].write(data.as_slice());
                    assert(self@.connections =~= old(self)@.connections.update(
                        i as int,
                        old(self)@.connections[i as int].write(data@),
                    ));
                    Reaction::Written(queued)
                },
                None => Reaction::Closed,
            },
            TransportCommand::DrainWriter(id) => match self.find(id) {
                Some(i) => {
                    let reply = self.connections[i].drain();
                    assert(self@.connections =~= old(self)@.connections.update(
                        i as int,
                        old(self)@.connections[i as int].drain(),
                    ));
                    match reply {
                        DrainReply::Done => Reaction::DrainNow,
                        DrainReply::Later => Reaction::DrainLater,
                        DrainReply::Busy => Reaction::Busy,
                    }
                },
                None => Reaction::Closed,
            },
            TransportCommand::CloseConnection(id, half) => match self.find(id) {
                Some(i) => {
                    if half {
                        self.connections[i].close_write();
                        assert(self@.connections =~= old(self)@.connections.update(
                            i as int,
                            old(self)@.connections[i as int].close_write(),
                        ));
                        Reaction::HalfClosed
                    } else {
                        Reaction::Retired(self.retire(i))
                    }
                },
                None => Reaction::Closed,
            },
            TransportCommand::SendDatagram { data, src_addr, dst_addr } => Reaction::Datagram {
                data,
                src_addr,
                dst_addr,
            },
        }
    }

    /// Bytes arrived from the peer of a connection. They are queued on it, and if a read
    /// waits on it, the bytes that answer the read are returned. Nothing changes for a
    /// connection that is not open.
    pub fn deliver(&mut self, id: ConnectionId, data: &[u8]) -> (answer: Option<Vec<u8>>)
        ensures
            final(self)@ == old(self)@.deliver(id, data@),
            bytes_view(answer) == old(self)@.deliver_reply(id, data@),
            old(self)@.wf() ==> final(self)@.wf(),
    {
        if self.stopped {
            return None;
        }
        match self.find(id) {
            Some(i) => {
                let answer = self.connections[i].deliver(data);
                assert(self@.connections =~= old(self)@.connections.update(
                    i as int,
                    old(self)@.connections[i as int].deliver(data@),
                ));
                answer
            },
            None => None,
        }
    }

    /// The peer of a connection finished. If a read waits on the connection, the bytes
    /// that answer it, none in a well-formed state, are returned.
    pub fn finish(&mut self, id: ConnectionId) -> (answer: Option<Vec<u8>>)
        ensures
            final(self)@ == old(self)@.finish(id),
            bytes_view(answer) == old(self)@.finish_reply(id),
            old(self)@.wf() ==> final(self)@.wf(),
    {
        if self.stopped {
            return None;
        }
        match self.find(id) {
            Some(i) => {
                let answer = self.connections[i].finish();
                assert(self@.connections =~= old(self)@.connections.update(
                    i as int,
                    old(self)@.connections[i as int].finish(),
                ));
                answer
            },
            None => None,
        }
    }

    /// The stack took the first `n` bytes that waited on a connection. Says whether the
    /// drain that waits on the connection is answered by this.
    pub fn accepted(&mut self, id: ConnectionId, n: usize) -> (drained: bool)
        ensures
            final(self)@ == old(self)@.accepted(id, n),
            drained == old(self)@.accepted_reply(id, n),
            old(self)@.wf() ==> final(self)@.wf(),
    {
        if self.stopped {
            return false;
        }
        match self.find(id) {
            Some(i) => {
                let drained = self.connections[i].accepted(n);
                assert(self@.connections =~= old(self)@.connections.update(
                    i as int,
                    old(self)@.connections[i as int].accepted(n),
                ));
                drained
            },
            None => false,
        }
    }

    /// The stack ended a connection, by a reset or because both sides have closed. The
    /// connection leaves the table, its identifier is retired, and its waiters, which
    /// are owed the closed signal, are returned.
    pub fn reset(&mut self, id: ConnectionId) -> (released: Option<Released>)
        ensures
            final(self)@ == old(self)@.reset(id),
            released == old(self)@.reset_reply(id),
            old(self)@.wf() ==> final(self)@.wf(),
    {
        if self.stopped {
            return None;
        }
        match self.find(id) {
            Some(i) => Some(self.retire(i)),
            None => None,
        }
    }

    /// Shuts the bridge down: every connection leaves the table, and the waiters of
    /// each, which are owed the closed signal, are returned in the table's order. From
    /// then on every command is answered with [`Reaction::Closed`].
    pub fn shutdown(&mut self) -> (released: Vec<Released>)
        ensures
            final(self)@ == old(self)@.shutdown(),
            released@ == old(self)@.shutdown_reply(),
            old(self)@.wf() ==> final(self)@.wf(),
    {
        let mut released: Vec<Released> = Vec::new();
        let mut i: usize = 0;
        while i < self.connections.len()
            invariant
                i <= self.connections@.len(),
                *self == *old(self),
                released@.len() == i,
                forall|k: int| 0 <= k < i ==> released@[k] == self@.connections[k].released(),
            decreases self.connections@.len() - i,
        {
            released.push(self.connections[i].released());
            i += 1;
        }
        self.connections.clear();
        self.stopped = true;
        assert(self@.connections =~= Seq::empty());
        assert(released@ =~= old(self)@.shutdown_reply());
        released
    }
}

} // verus!
