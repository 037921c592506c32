//! What holds of a connection over its whole life, whatever the embedding application,
//! the peer and the stack do and in whatever order: no byte is lost, repeated or
//! reordered on the way up to the reader or down to the stack.

use crate::connection::ConnectionView;
use crate::connection::ReadReplyView;
use vstd::prelude::*;

verus! {

/// One thing that happens to a connection.
pub enum Step {
    /// The embedding application asks for up to this many bytes.
    Read(u32),
    /// The embedding application writes these bytes.
    Write(Seq<u8>),
    /// The embedding application asks to be told when its bytes have been taken.
    Drain,
    /// The embedding application closes the writing half.
    CloseWrite,
    /// These bytes arrive from the peer.
    Deliver(Seq<u8>),
    /// The peer finishes.
    Finish,
    /// The stack takes up to this many of the bytes that wait for it.
    Accepted(usize),
}

/// The state after one step.
pub open spec fn step(c: ConnectionView, s: Step) -> ConnectionView {
    match s {
        Step::Read(n) => c.read(n),
        Step::Write(data) => c.write(data),
        Step::Drain => c.drain(),
        Step::CloseWrite => c.close_write(),
        Step::Deliver(data) => c.deliver(data),
        Step::Finish => c.finish(),
        Step::Accepted(n) => c.accepted(n),
    }
}

/// The bytes that a step hands to the reader.
pub open spec fn handed_up(c: ConnectionView, s: Step) -> Seq<u8> {
    match s {
        Step::Read(n) => match c.read_reply(n) {
            ReadReplyView::Data(bytes) => bytes,
            _ => Seq::empty(),
        },
        Step::Deliver(data) => match c.deliver_reply(data) {
            Some(bytes) => bytes,
            None => Seq::empty(),
        },
        Step::Finish => match c.finish_reply() {
            Some(bytes) => bytes,
            None => Seq::empty(),
        },
        _ => Seq::empty(),
    }
}

/// The bytes that a step hands to the stack.
pub open spec fn handed_down(c: ConnectionView, s: Step) -> Seq<u8> {
    match s {
        Step::Accepted(n) => c.taken(n),
        _ => Seq::empty(),
    }
}

/// The bytes that a step brings from the peer.
pub open spec fn came_up(s: Step) -> Seq<u8> {
    match s {
        Step::Deliver(data) => data,
        _ => Seq::empty(),
    }
}

/// The bytes that a step queues for the peer: those of a write while the writing half
/// is open.
pub open spec fn came_down(c: ConnectionView, s: Step) -> Seq<u8> {
    match s {
        Step::Write(data) => c.written(data),
        _ => Seq::empty(),
    }
}

/// The state after a sequence of steps.
pub open spec fn run(c: ConnectionView, steps: Seq<Step>) -> ConnectionView
    decreases steps.len(),
{
    if steps.len() == 0 {
        c
    } else {
        step(run(c, steps.drop_last()), steps.last())
    }
}

/// All bytes handed to the reader over a sequence of steps, in order.
pub open spec fn read_so_far(c: ConnectionView, steps: Seq<Step>) -> Seq<u8>
    decreases steps.len(),
{
    if steps.len() == 0 {
        Seq::empty()
    } else {
        read_so_far(c, steps.drop_last()) + handed_up(run(c, steps.drop_last()), steps.last())
    }
}

/// All bytes handed to the stack over a sequence of steps, in order.
pub open spec fn sent_so_far(c: ConnectionView, steps: Seq<Step>) -> Seq<u8>
    decreases steps.len(),
{
    if steps.len() == 0 {
        Seq::empty()
    } else {
        sent_so_far(c, steps.drop_last()) + handed_down(run(c, steps.drop_last()), steps.last())
    }
}

/// All bytes that came from the peer over a sequence of steps, in order.
pub open spec fn delivered_so_far(steps: Seq<Step>) -> Seq<u8>
    decreases steps.len(),
{
    if steps.len() == 0 {
        Seq::empty()
    } else {
        delivered_so_far(steps.drop_last()) + came_up(steps.last())
    }
}

/// All bytes queued for the peer over a sequence of steps, in order.
pub open spec fn written_so_far(c: ConnectionView, steps: Seq<Step>) -> Seq<u8>
    decreases steps.len(),
{
    if steps.len() == 0 {
        Seq::empty()
    } else {
        written_so_far(c, steps.drop_last()) + came_down(run(c, steps.drop_last()), steps.last())
    }
}

/// One step keeps a well-formed connection well-formed.
pub proof fn lemma_step_keeps_wf(c: ConnectionView, s: Step)
    requires
        c.wf(),
    ensures
        step(c, s).wf(),
{
}

/// One step neither loses nor invents bytes on the way up: what it hands to the reader,
/// followed by what is left, is what was there followed by what came.
pub proof fn lemma_step_up(c: ConnectionView, s: Step)
    ensures
        handed_up(c, s) + step(c, s).inbound == c.inbound + came_up(s),
{
    assert forall|buffer: Seq<u8>, i: int| 0 <= i <= buffer.len() implies #[trigger] buffer.take(i)
        + buffer.skip(i) == buffer by {
        assert(buffer.take(i) + buffer.skip(i) =~= buffer);
    }
    assert(handed_up(c, s) + step(c, s).inbound =~= c.inbound + came_up(s));
}

/// One step neither loses nor invents bytes on the way down.
pub proof fn lemma_step_down(c: ConnectionView, s: Step)
    ensures
        handed_down(c, s) + step(c, s).outbound == c.outbound + came_down(c, s),
{
    assert forall|buffer: Seq<u8>, i: int| 0 <= i <= buffer.len() implies #[trigger] buffer.take(i)
        + buffer.skip(i) == buffer by {
        assert(buffer.take(i) + buffer.skip(i) =~= buffer);
    }
    assert(handed_down(c, s) + step(c, s).outbound =~= c.outbound + came_down(c, s));
}

/// Whatever happens to a well-formed connection, it stays well-formed.
pub proof fn lemma_run_keeps_wf(c: ConnectionView, steps: Seq<Step>)
    requires
        c.wf(),
    ensures
        run(c, steps).wf(),
    decreases steps.len(),
{
    if steps.len() > 0 {
        lemma_run_keeps_wf(c, steps.drop_last());
        lemma_step_keeps_wf(run(c, steps.drop_last()), steps.last());
    }
}

/// The bytes read from a connection are the bytes the peer sent, in order and without
/// gap or repeat: all that was handed to the reader, followed by what still waits to be
/// read, is what waited at the start followed by all that came from the peer.
pub proof fn lemma_reads_follow_the_peer(c: ConnectionView, steps: Seq<Step>)
    ensures
        read_so_far(c, steps) + run(c, steps).inbound == c.inbound + delivered_so_far(steps),
    decreases steps.len(),
{
    if steps.len() == 0 {
        assert(read_so_far(c, steps) + run(c, steps).inbound =~= c.inbound + delivered_so_far(
            steps,
        ));
    } else {
        let before = steps.drop_last();
        let last = steps.last();
        lemma_reads_follow_the_peer(c, before);
        lemma_step_up(run(c, before), last);
        assert(read_so_far(c, steps) + run(c, steps).inbound =~= read_so_far(c, before) + (
        handed_up(run(c, before), last) + run(c, steps).inbound));
        assert(c.inbound + delivered_so_far(steps) =~= (c.inbound + delivered_so_far(before))
            + came_up(last));
        assert((read_so_far(c, before) + run(c, before).inbound) + came_up(last) =~= read_so_far(
            c,
            before,
        ) + (run(c, before).inbound + came_up(last)));
    }
}

/// The bytes written to a connection reach the stack in the order of the writes and
/// without gap or repeat: all that the stack took, followed by what still waits for it,
/// is what waited at the start followed by all that was written while the writing half
/// was open.
pub proof fn lemma_writes_reach_the_stack(c: ConnectionView, steps: Seq<Step>)
    ensures
        sent_so_far(c, steps) + run(c, steps).outbound == c.outbound + written_so_far(c, steps),
    decreases steps.len(),
{
    if steps.len() == 0 {
        assert(sent_so_far(c, steps) + run(c, steps).outbound =~= c.outbound + written_so_far(
            c,
            steps,
        ));
    } else {
        let before = steps.drop_last();
        let last = steps.last();
        lemma_writes_reach_the_stack(c, before);
        lemma_step_down(run(c, before), last);
        assert(sent_so_far(c, steps) + run(c, steps).outbound =~= sent_so_far(c, before) + (
        handed_down(run(c, before), last) + run(c, steps).outbound));
        assert(c.outbound + written_so_far(c, steps) =~= (c.outbound + written_so_far(c, before))
            + came_down(run(c, before), last));
        assert((sent_so_far(c, before) + run(c, before).outbound) + came_down(
            run(c, before),
            last,
        ) =~= sent_so_far(c, before) + (run(c, before).outbound + came_down(
            run(c, before),
            last,
        )));
    }
}

/// Once the peer has finished and every byte was read, a read is answered at once with
/// no bytes and changes nothing, so every later read is answered the same way.
pub proof fn lemma_reads_after_the_end(c: ConnectionView, n: u32)
    requires
        c.peer_finished,
        c.inbound.len() == 0,
        c.read_waiter is None,
    ensures
        c.read_reply(n) == ReadReplyView::Data(Seq::empty()),
        c.read(n) == c,
{
    assert(c.front(n) =~= Seq::<u8>::empty());
    assert(c.read(n).inbound =~= c.inbound);
}

/// Once the writing half is closed, writes change nothing: no byte written after the
/// close reaches the stack.
pub proof fn lemma_writes_after_close(c: ConnectionView, data: Seq<u8>)
    requires
        c.write_closed,
    ensures
        c.write(data) == c,
{
    assert(c.write(data).outbound =~= c.outbound);
}

} // verus!
