//! One accepted TCP connection as the bridge keeps it: the bytes that came from the peer
//! and wait to be read, the bytes that were written and wait for the stack, and the one
//! read and the one drain that may be waiting for an answer.
//!
//! Every operation is total: it is defined on every state, and says exactly what state
//! follows and what is answered.

use crate::address::SocketAddress;
use crate::messages::ConnectionId;
use vstd::prelude::*;

verus! {

/// A connection's state.
#[derive(Clone, Debug, PartialEq, Eq)]
pub struct Connection {
    pub id: ConnectionId,
    /// Where the connection came from.
    pub peer: SocketAddress,
    /// Where the peer meant to connect to.
    pub original_dst: SocketAddress,
    /// A drain is answered once fewer bytes than this wait for the stack, or none.
    pub low_water: usize,
    /// Bytes from the peer that no read has taken yet, oldest first.
    pub inbound: Vec<u8>,
    /// True once the peer has closed its side.
    pub peer_finished: bool,
    /// Bytes written that the stack has not taken yet, oldest first.
    pub outbound: Vec<u8>,
    /// True once the writing half was closed.
    pub write_closed: bool,
    /// The size asked for by the read that waits, if one waits.
    pub read_waiter: Option<u32>,
    /// True while a drain waits.
    pub drain_waiter: bool,
}

/// The mathematical value of a [`Connection`].
pub struct ConnectionView {
    pub id: ConnectionId,
    pub peer: SocketAddress,
    pub original_dst: SocketAddress,
    pub low_water: usize,
    pub inbound: Seq<u8>,
    pub peer_finished: bool,
    pub outbound: Seq<u8>,
    pub write_closed: bool,
    pub read_waiter: Option<u32>,
    pub drain_waiter: bool,
}

impl View for Connection {
    type V = ConnectionView;

    open spec fn view(&self) -> ConnectionView {
        ConnectionView {
            id: self.id,
            peer: self.peer,
            original_dst: self.original_dst,
            low_water: self.low_water,
            inbound: self.inbound@,
            peer_finished: self.peer_finished,
            outbound: self.outbound@,
            write_closed: self.write_closed,
            read_waiter: self.read_waiter,
            drain_waiter: self.drain_waiter,
        }
    }
}

/// The answer to a read.
#[derive(Clone, Debug, PartialEq, Eq)]
pub enum ReadReply {
    /// The read is answered with these bytes; none means that the peer has finished.
    Data(Vec<u8>),
    /// The read waits for bytes or for the peer to finish.
    Later,
    /// Another read waits already; this one is refused.
    Busy,
}

/// The mathematical value of a [`ReadReply`].
pub enum ReadReplyView {
    Data(Seq<u8>),
    Later,
    Busy,
}

impl View for ReadReply {
    type V = ReadReplyView;

    open spec fn view(&self) -> ReadReplyView {
        match *self {
            ReadReply::Data(bytes) => ReadReplyView::Data(bytes@),
            ReadReply::Later => ReadReplyView::Later,
            ReadReply::Busy => ReadReplyView::Busy,
        }
    }
}

/// The answer to a drain.
#[derive(Clone, Copy, Debug, PartialEq, Eq, Structural)]
pub enum DrainReply {
    /// The stack has taken enough: the drain is answered.
    Done,
    /// The drain waits for the stack.
    Later,
    /// Another drain waits already; this one is refused.
    Busy,
}

/// The waiters that a connection leaves behind when it ends; each is owed the closed
/// signal.
#[derive(Clone, Copy, Debug, PartialEq, Eq, Structural)]
pub struct Released {
    pub id: ConnectionId,
    pub read_waiter: bool,
    pub drain_waiter: bool,
}

/// The view of an answer that may carry bytes.
pub open spec fn bytes_view(answer: Option<Vec<u8>>) -> Option<Seq<u8>> {
    match answer {
        Some(bytes) => Some(bytes@),
        None => None,
    }
}

/// The smaller of a requested size and a length.
pub open spec fn at_most(n: int, len: nat) -> nat {
    if n <= 0 {
        0
    } else if n <= len {
        n as nat
    } else {
        len
    }
}

impl ConnectionView {
    /// A connection that was just accepted: nothing buffered, nothing waiting.
    pub open spec fn fresh(
        id: ConnectionId,
        peer: SocketAddress,
        original_dst: SocketAddress,
        low_water: usize,
    ) -> ConnectionView {
        ConnectionView {
            id,
            peer,
            original_dst,
            low_water,
            inbound: Seq::empty(),
            peer_finished: false,
            outbound: Seq::empty(),
            write_closed: false,
            read_waiter: None,
            drain_waiter: false,
        }
    }

    /// A waiting read has nothing it could be answered with, and a waiting drain has
    /// bytes to wait for.
    pub open spec fn wf(self) -> bool {
        &&& self.read_waiter is Some ==> !self.readable()
        &&& self.drain_waiter ==> !self.is_drained()
    }

    /// True if a read is answered at once: there are bytes, or the peer has finished.
    pub open spec fn readable(self) -> bool {
        self.inbound.len() > 0 || self.peer_finished
    }

    /// True if a drain is answered at once: no bytes wait for the stack, or fewer than
    /// the low-water mark.
    pub open spec fn is_drained(self) -> bool {
        self.outbound.len() == 0 || self.outbound.len() < self.low_water
    }

    /// The bytes that answer a read of up to `n` bytes.
    pub open spec fn front(self, n: u32) -> Seq<u8> {
        self.inbound.take(at_most(n as int, self.inbound.len()) as int)
    }

    /// The state after a read of up to `n` bytes was answered.
    pub open spec fn answered(self, n: u32) -> ConnectionView {
        ConnectionView {
            inbound: self.inbound.skip(at_most(n as int, self.inbound.len()) as int),
            read_waiter: None,
            ..self
        }
    }

    /// The state after a read of up to `n` bytes was asked for.
    pub open spec fn read(self, n: u32) -> ConnectionView {
        if self.read_waiter is Some {
            self
        } else if self.readable() {
            self.answered(n)
        } else {
            ConnectionView { read_waiter: Some(n), ..self }
        }
    }

    /// The answer to a read of up to `n` bytes.
    pub open spec fn read_reply(self, n: u32) -> ReadReplyView {
        if self.read_waiter is Some {
            ReadReplyView::Busy
        } else if self.readable() {
            ReadReplyView::Data(self.front(n))
        } else {
            ReadReplyView::Later
        }
    }

    /// The bytes of `data` that a write queues: all of them, or none once the writing
    /// half is closed.
    pub open spec fn written(self, data: Seq<u8>) -> Seq<u8> {
        if self.write_closed {
            Seq::empty()
        } else {
            data
        }
    }

    /// The state after `data` was written.
    pub open spec fn write(self, data: Seq<u8>) -> ConnectionView {
        ConnectionView { outbound: self.outbound + self.written(data), ..self }
    }

    /// The state after a drain was asked for.
    pub open spec fn drain(self) -> ConnectionView {
        if self.drain_waiter || self.is_drained() {
            self
        } else {
            ConnectionView { drain_waiter: true, ..self }
        }
    }

    /// The answer to a drain.
    pub open spec fn drain_reply(self) -> DrainReply {
        if self.drain_waiter {
            DrainReply::Busy
        } else if self.is_drained() {
            DrainReply::Done
        } else {
            DrainReply::Later
        }
    }

    /// The state after the writing half was closed.
    pub open spec fn close_write(self) -> ConnectionView {
        ConnectionView { write_closed: true, ..self }
    }

    /// The state with `data` from the peer added, before any waiting read is answered.
    pub open spec fn extended(self, data: Seq<u8>) -> ConnectionView {
        ConnectionView { inbound: self.inbound + data, ..self }
    }

    /// The state after `data` arrived from the peer.
    pub open spec fn deliver(self, data: Seq<u8>) -> ConnectionView {
        match self.read_waiter {
            Some(n) if self.extended(data).readable() => self.extended(data).answered(n),
            _ => self.extended(data),
        }
    }

    /// The bytes that answer the waiting read when `data` arrives from the peer, if a
    /// read waits and can be answered.
    pub open spec fn deliver_reply(self, data: Seq<u8>) -> Option<Seq<u8>> {
        match self.read_waiter {
            Some(n) if self.extended(data).readable() => Some(self.extended(data).front(n)),
            _ => None,
        }
    }

    /// The state after the peer finished.
    pub open spec fn finish(self) -> ConnectionView {
        let finished = ConnectionView { peer_finished: true, ..self };
        match self.read_waiter {
            Some(n) => finished.answered(n),
            None => finished,
        }
    }

    /// The bytes that answer the waiting read when the peer finishes, if a read waits.
    pub open spec fn finish_reply(self) -> Option<Seq<u8>> {
        match self.read_waiter {
            Some(n) => Some(self.front(n)),
            None => None,
        }
    }

    /// The bytes that the stack takes when it takes up to `n` of those that wait.
    pub open spec fn taken(self, n: usize) -> Seq<u8> {
        self.outbound.take(at_most(n as int, self.outbound.len()) as int)
    }

    /// The state with the first `n` waiting bytes taken by the stack, before any waiting
    /// drain is answered.
    pub open spec fn shortened(self, n: usize) -> ConnectionView {
        ConnectionView {
            outbound: self.outbound.skip(at_most(n as int, self.outbound.len()) as int),
            ..self
        }
    }

    /// The state after the stack took the first `n` waiting bytes.
    pub open spec fn accepted(self, n: usize) -> ConnectionView {
        ConnectionView {
            drain_waiter: self.drain_waiter && !self.shortened(n).is_drained(),
            ..self.shortened(n)
        }
    }

    /// True if the waiting drain is answered when the stack takes the first `n` waiting
    /// bytes.
    pub open spec fn accepted_reply(self, n: usize) -> bool {
        self.drain_waiter && self.shortened(n).is_drained()
    }

    /// True once the writing half is closed and the stack has taken every byte: the
    /// peer can be told that no more will come.
    pub open spec fn wants_fin(self) -> bool {
        self.write_closed && self.outbound.len() == 0
    }

    /// The waiters that the connection leaves behind when it ends.
    pub open spec fn released(self) -> Released {
        Released {
            id: self.id,
            read_waiter: self.read_waiter is Some,
            drain_waiter: self.drain_waiter,
        }
    }
}

/// Takes the first `k` bytes off a buffer.
fn take_front(buffer: &mut Vec<u8>, k: usize) -> (front: Vec<u8>)
    requires
        k <= old(buffer)@.len(),
    ensures
        front@ == old(buffer)@.take(k as int),
        final(buffer)@ == old(buffer)@.skip(k as int),
{
    let mut rest = buffer.split_off(k);
    core::mem::swap(buffer, &mut rest);
    rest
}

/// The smaller of a requested size and a length.
fn clamp_len(n: usize, len: usize) -> (k: usize)
    ensures
        k == at_most(n as int, len as nat),
{
    if n <= len {
        n
    } else {
        len
    }
}

/// The smaller of a requested size and a length.
fn clamp_read(n: u32, len: usize) -> (k: usize)
    ensures
        k == at_most(n as int, len as nat),
{
    if len > u32::MAX as usize {
        n as usize
    } else if n as usize <= len {
        n as usize
    } else {
        len
    }
}

impl Connection {
    /// A connection that was just accepted.
    pub fn new(
        id: ConnectionId,
        peer: SocketAddress,
        original_dst: SocketAddress,
        low_water: usize,
    ) -> (connection: Connection)
        ensures
            connection@ == ConnectionView::fresh(id, peer, original_dst, low_water),
            connection@.wf(),
    {
        Connection {
            id,
            peer,
            original_dst,
            low_water,
            inbound: Vec::new(),
            peer_finished: false,
            outbound: Vec::new(),
            write_closed: false,
            read_waiter: None,
            drain_waiter: false,
        }
    }

    /// True if a read is answered at once.
    pub fn readable(&self) -> (readable: bool)
        ensures
            readable == self@.readable(),
    {
        self.inbound.len() > 0 || self.peer_finished
    }

    /// True if a drain is answered at once.
    pub fn is_drained(&self) -> (drained: bool)
        ensures
            drained == self@.is_drained(),
    {
        self.outbound.len() == 0 || self.outbound.len() < self.low_water
    }

    /// Takes the bytes that answer a read of up to `n` bytes, and forgets the read.
    fn answer(&mut self, n: u32) -> (bytes: Vec<u8>)
        ensures
            bytes@ == old(self)@.front(n),
            final(self)@ == old(self)@.answered(n),
    {
        let k = clamp_read(n, self.inbound.len());
        self.read_waiter = None;
        take_front(&mut self.inbound, k)
    }

    /// The embedding application asks for up to `n` bytes. If a read waits already, this
    /// one is refused. If there are bytes, the first `n` of them, or all if there are
    /// fewer, answer it at once; if there are none and the peer has finished, it is
    /// answered with no bytes. Otherwise it waits.
    pub fn read(&mut self, n: u32) -> (reply: ReadReply)
        ensures
            final(self)@ == old(self)@.read(n),
            reply@ == old(self)@.read_reply(n),
            old(self)@.wf() ==> final(self)@.wf(),
    {
        if self.read_waiter.is_some() {
            ReadReply::Busy
        } else if self.readable() {
            ReadReply::Data(self.answer(n))
        } else {
            self.read_waiter = Some(n);
            ReadReply::Later
        }
    }

    /// The embedding application writes `data`: it is queued behind what waits for the
    /// stack, unless the writing half is closed, in which case it is dropped. Says
    /// whether it was queued.
    pub fn write(&mut self, data: &[u8]) -> (queued: bool)
        ensures
            final(self)@ == old(self)@.write(data@),
            queued == !old(self)@.write_closed,
            old(self)@.wf() ==> final(self)@.wf(),
    {
        if self.write_closed {
            assert(self.outbound@ + Seq::<u8>::empty() =~= self.outbound@);
            false
        } else {
            self.outbound.extend_from_slice(data);
            assert(self.outbound@ =~= old(self).outbound@ + data@);
            true
        }
    }

    /// The embedding application asks to be told when what it wrote has been taken by
    /// the stack. If a drain waits already, this one is refused; if no bytes wait, or
    /// fewer than the low-water mark, it is answered at once; otherwise it waits.
    pub fn drain(&mut self) -> (reply: DrainReply)
        ensures
            final(self)@ == old(self)@.drain(),
            reply == old(self)@.drain_reply(),
            old(self)@.wf() ==> final(self)@.wf(),
    {
        if self.drain_waiter {
            DrainReply::Busy
        } else if self.is_drained() {
            DrainReply::Done
        } else {
            self.drain_waiter = true;
            DrainReply::Later
        }
    }

    /// The embedding application closes the writing half. What waits for the stack is
    /// still sent; later writes are dropped.
    pub fn close_write(&mut self)
        ensures
            final(self)@ == old(self)@.close_write(),
            old(self)@.wf() ==> final(self)@.wf(),
    {
        self.write_closed = true;
    }

    /// Bytes arrived from the peer: they are queued behind those not yet read, and a
    /// waiting read is answered from the front of the queue.
    pub fn deliver(&mut self, data: &[u8]) -> (answer: Option<Vec<u8>>)
        ensures
            final(self)@ == old(self)@.deliver(data@),
            bytes_view(answer) == old(self)@.deliver_reply(data@),
            old(self)@.wf() ==> final(self)@.wf(),
    {
        self.inbound.extend_from_slice(data);
        assert(self.inbound@ =~= old(self).inbound@ + data@);
        assert(self@ == old(self)@.extended(data@));
        match self.read_waiter {
            Some(n) => {
                if self.readable() {
                    Some(self.answer(n))
                } else {
                    None
                }
            },
            None => None,
        }
    }

    /// The peer finished: a waiting read is answered with what is left, which is nothing
    /// in a well-formed state, and every later read is answered at once.
    pub fn finish(&mut self) -> (answer: Option<Vec<u8>>)
        ensures
            final(self)@ == old(self)@.finish(),
            bytes_view(answer) == old(self)@.finish_reply(),
            old(self)@.wf() ==> final(self)@.wf(),
    {
        self.peer_finished = true;
        match self.read_waiter {
            Some(n) => Some(self.answer(n)),
            None => None,
        }
    }

    /// The stack took the first `n` of the bytes that wait for it, or all if fewer
    /// wait. Says whether the waiting drain is answered by this.
    pub fn accepted(&mut self, n: usize) -> (drained: bool)
        ensures
            final(self)@ == old(self)@.accepted(n),
            drained == old(self)@.accepted_reply(n),
            old(self)@.wf() ==> final(self)@.wf(),
    {
        let k = clamp_len(n, self.outbound.len());
        let _ = take_front(&mut self.outbound, k);
        assert(self@ == old(self)@.shortened(n));
        if self.drain_waiter && self.is_drained() {
            self.drain_waiter = false;
            true
        } else {
            false
        }
    }

    /// True once the writing half is closed and nothing waits for the stack.
    pub fn wants_fin(&self) -> (fin: bool)
        ensures
            fin == self@.wants_fin(),
    {
        self.write_closed && self.outbound.len() == 0
    }

    /// The waiters that the connection leaves behind when it ends.
    pub fn released(&self) -> (released: Released)
        ensures
            released == self@.released(),
    {
        Released {
            id: self.id,
            read_waiter: self.read_waiter.is_some(),
            drain_waiter: self.drain_waiter,
        }
    }
}

} // verus!
