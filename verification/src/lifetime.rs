//! What holds of the bridge over the whole life of a server, whatever reaches it and in
//! whatever order: an identifier is given to one connection only, a connection that has
//! ended never comes back, and after shutdown nothing is served.

use crate::address::SocketAddress;
use crate::bridge::index_of;
use crate::bridge::lemma_index_of_absent;
use crate::bridge::lemma_index_of_found;
use crate::bridge::lemma_index_of_is_first;
use crate::bridge::BridgeView;
use crate::bridge::ReactionView;
use crate::connection::ConnectionView;
use crate::messages::ConnectionId;
use crate::messages::TransportCommandView;
use vstd::prelude::*;

verus! {

/// One thing that happens to the bridge.
pub enum BridgeStep {
    /// The stack accepted a connection.
    Establish { src_addr: SocketAddress, dst_addr: SocketAddress, event_room: bool },
    /// The embedding application sent a command.
    Command(TransportCommandView),
    /// Bytes arrived from the peer of a connection.
    Deliver(ConnectionId, Seq<u8>),
    /// The peer of a connection finished.
    Finish(ConnectionId),
    /// The stack took bytes of a connection.
    Accepted(ConnectionId, usize),
    /// The stack ended a connection.
    Reset(ConnectionId),
    /// The server stops.
    Shutdown,
}

/// The state after one step.
pub open spec fn bridge_step(b: BridgeView, s: BridgeStep) -> BridgeView {
    match s {
        BridgeStep::Establish { src_addr, dst_addr, event_room } => b.establish(
            src_addr,
            dst_addr,
            event_room,
        ),
        BridgeStep::Command(command) => b.command(command),
        BridgeStep::Deliver(id, data) => b.deliver(id, data),
        BridgeStep::Finish(id) => b.finish(id),
        BridgeStep::Accepted(id, n) => b.accepted(id, n),
        BridgeStep::Reset(id) => b.reset(id),
        BridgeStep::Shutdown => b.shutdown(),
    }
}

/// The state after a sequence of steps.
pub open spec fn bridge_run(b: BridgeView, steps: Seq<BridgeStep>) -> BridgeView
    decreases steps.len(),
{
    if steps.len() == 0 {
        b
    } else {
        bridge_step(bridge_run(b, steps.drop_last()), steps.last())
    }
}

/// True if the identifier was given out by the bridge and its connection has ended.
pub open spec fn is_retired(b: BridgeView, id: ConnectionId) -> bool {
    id < b.next_id && !b.has(id)
}

/// True if every connection of `after` was a connection of `before`, under the same
/// identifier.
pub open spec fn no_new_ids(before: Seq<ConnectionView>, after: Seq<ConnectionView>) -> bool {
    forall|k: int| 0 <= k < after.len() ==> is_present(before, (#[trigger] after[k]).id)
}

/// True if some place of the table holds the identifier.
pub open spec fn is_present(connections: Seq<ConnectionView>, id: ConnectionId) -> bool {
    exists|j: int| 0 <= j < connections.len() && (#[trigger] connections[j]).id == id
}

/// A connection is open exactly if some place of the table holds its identifier.
pub proof fn lemma_has_means_present(b: BridgeView, id: ConnectionId)
    ensures
        b.has(id) <==> is_present(b.connections, id),
{
    lemma_index_of_is_first(b.connections, id);
    if is_present(b.connections, id) {
        if index_of(b.connections, id) is None {
            let k = choose|k: int|
                0 <= k < b.connections.len() && (#[trigger] b.connections[k]).id == id;
            assert(b.connections[k].id != id);
        }
    }
}

/// A table that got no new identifier has no connection that the old one had not.
proof fn lemma_no_new_ids(before: BridgeView, after: BridgeView, id: ConnectionId)
    requires
        no_new_ids(before.connections, after.connections),
        !before.has(id),
    ensures
        !after.has(id),
{
    lemma_has_means_present(before, id);
    lemma_has_means_present(after, id);
    if after.has(id) {
        let k = choose|k: int|
            0 <= k < after.connections.len() && (#[trigger] after.connections[k]).id == id;
        assert(is_present(before.connections, after.connections[k].id));
    }
}

/// Replacing a connection by one with the same identifier brings no new identifier.
proof fn lemma_with_no_new_ids(b: BridgeView, id: ConnectionId, connection: ConnectionView)
    requires
        b.has(id) ==> connection.id == b.connection(id).id,
    ensures
        no_new_ids(b.connections, b.with(id, connection).connections),
        b.with(id, connection).next_id == b.next_id,
        b.with(id, connection).stopped == b.stopped,
{
    lemma_index_of_is_first(b.connections, id);
    let after = b.with(id, connection).connections;
    assert forall|k: int| 0 <= k < after.len() implies is_present(
        b.connections,
        (#[trigger] after[k]).id,
    ) by {
        assert(b.connections[k].id == after[k].id);
    }
}

/// Removing a connection brings no new identifier.
proof fn lemma_without_no_new_ids(b: BridgeView, id: ConnectionId)
    ensures
        no_new_ids(b.connections, b.without(id).connections),
        b.without(id).next_id == b.next_id,
        b.without(id).stopped == b.stopped,
{
    lemma_index_of_is_first(b.connections, id);
    let after = b.without(id).connections;
    assert forall|k: int| 0 <= k < after.len() implies is_present(
        b.connections,
        (#[trigger] after[k]).id,
    ) by {
        match index_of(b.connections, id) {
            Some(i) => {
                if k < i {
                    assert(b.connections[k].id == after[k].id);
                } else {
                    assert(b.connections[k + 1].id == after[k].id);
                }
            },
            None => {
                assert(b.connections[k].id == after[k].id);
            },
        }
    }
}

/// Every step but the acceptance of a connection brings no new identifier, and no step
/// lowers the next identifier.
pub proof fn lemma_step_brings_no_id(b: BridgeView, s: BridgeStep)
    requires
        !(s is Establish),
    ensures
        no_new_ids(b.connections, bridge_step(b, s).connections),
        bridge_step(b, s).next_id == b.next_id,
{
    assert(no_new_ids(b.connections, b.connections));
    match s {
        BridgeStep::Establish { .. } => {},
        BridgeStep::Command(command) => {
            match command {
                TransportCommandView::ReadData(id, n) => {
                    lemma_with_no_new_ids(b, id, b.connection(id).read(n));
                },
                TransportCommandView::WriteData(id, data) => {
                    lemma_with_no_new_ids(b, id, b.connection(id).write(data));
                },
                TransportCommandView::DrainWriter(id) => {
                    lemma_with_no_new_ids(b, id, b.connection(id).drain());
                },
                TransportCommandView::CloseConnection(id, half) => {
                    lemma_with_no_new_ids(b, id, b.connection(id).close_write());
                    lemma_without_no_new_ids(b, id);
                },
                TransportCommandView::SendDatagram { .. } => {},
            }
        },
        BridgeStep::Deliver(id, data) => {
            lemma_with_no_new_ids(b, id, b.connection(id).deliver(data));
        },
        BridgeStep::Finish(id) => {
            lemma_with_no_new_ids(b, id, b.connection(id).finish());
        },
        BridgeStep::Accepted(id, n) => {
            lemma_with_no_new_ids(b, id, b.connection(id).accepted(n));
        },
        BridgeStep::Reset(id) => {
            lemma_without_no_new_ids(b, id);
        },
        BridgeStep::Shutdown => {},
    }
}

/// One step keeps a well-formed bridge well-formed.
pub proof fn lemma_step_keeps_wf(b: BridgeView, s: BridgeStep)
    requires
        b.wf(),
    ensures
        bridge_step(b, s).wf(),
{
    match s {
        BridgeStep::Establish { .. } => {},
        BridgeStep::Shutdown => {},
        BridgeStep::Command(command) => {
            match command {
                TransportCommandView::ReadData(id, n) => {
                    lemma_index_of_is_first(b.connections, id);
                },
                TransportCommandView::WriteData(id, data) => {
                    lemma_index_of_is_first(b.connections, id);
                },
                TransportCommandView::DrainWriter(id) => {
                    lemma_index_of_is_first(b.connections, id);
                },
                TransportCommandView::CloseConnection(id, half) => {
                    lemma_index_of_is_first(b.connections, id);
                },
                TransportCommandView::SendDatagram { .. } => {},
            }
        },
        BridgeStep::Deliver(id, data) => {
            lemma_index_of_is_first(b.connections, id);
        },
        BridgeStep::Finish(id) => {
            lemma_index_of_is_first(b.connections, id);
        },
        BridgeStep::Accepted(id, n) => {
            lemma_index_of_is_first(b.connections, id);
        },
        BridgeStep::Reset(id) => {
            lemma_index_of_is_first(b.connections, id);
        },
    }
}

/// Whatever happens to a well-formed bridge, it stays well-formed.
pub proof fn lemma_run_keeps_wf(b: BridgeView, steps: Seq<BridgeStep>)
    requires
        b.wf(),
    ensures
        bridge_run(b, steps).wf(),
    decreases steps.len(),
{
    if steps.len() > 0 {
        lemma_run_keeps_wf(b, steps.drop_last());
        lemma_step_keeps_wf(bridge_run(b, steps.drop_last()), steps.last());
    }
}

/// The identifier that a connection gets is new: no open connection has it, and it is
/// larger than the identifier of every open connection.
pub proof fn lemma_established_id_is_new(
    b: BridgeView,
    src_addr: SocketAddress,
    dst_addr: SocketAddress,
)
    requires
        b.wf(),
        b.establishes(true),
    ensures
        !b.has(b.next_id as ConnectionId),
        forall|k: int|
            0 <= k < b.connections.len() ==> (#[trigger] b.connections[k]).id < b.next_id,
        b.establish(src_addr, dst_addr, true).has(b.next_id as ConnectionId),
        b.establish(src_addr, dst_addr, true).connection(b.next_id as ConnectionId)
            == ConnectionView::fresh(b.next_id as ConnectionId, src_addr, dst_addr, b.low_water),
{
    let id = b.next_id as ConnectionId;
    let after = b.establish(src_addr, dst_addr, true);
    lemma_index_of_absent(b.connections, id);
    let last = b.connections.len() as int;
    assert(after.connections[last].id == id);
    assert forall|k: int| 0 <= k < last implies (#[trigger] after.connections[k]).id != id by {
        assert(after.connections[k] == b.connections[k]);
    }
    lemma_index_of_found(after.connections, id, last);
}

/// Nothing is served on a connection before it was announced: a command that names an
/// identifier that was not given out yet is dropped with the closed signal, and no
/// event from the stack for it changes anything.
pub proof fn lemma_nothing_before_the_announcement(b: BridgeView, id: ConnectionId, s: BridgeStep)
    requires
        b.wf(),
        id >= b.next_id,
        match s {
            BridgeStep::Command(command) => command is ReadData && command->ReadData_0 == id
                || command is WriteData && command->WriteData_0 == id || command is DrainWriter
                && command->DrainWriter_0 == id || command is CloseConnection
                && command->CloseConnection_0 == id,
            BridgeStep::Deliver(other, _) => other == id,
            BridgeStep::Finish(other) => other == id,
            BridgeStep::Accepted(other, _) => other == id,
            BridgeStep::Reset(other) => other == id,
            _ => false,
        },
    ensures
        !b.has(id),
        bridge_step(b, s) == b,
        s matches BridgeStep::Command(command) ==> b.reaction(command) == ReactionView::Closed,
{
    lemma_index_of_absent(b.connections, id);
}

/// A retired identifier stays retired over one step: its connection does not come back
/// and no other connection gets it.
pub proof fn lemma_step_keeps_retired(b: BridgeView, s: BridgeStep, id: ConnectionId)
    requires
        b.wf(),
        is_retired(b, id),
    ensures
        is_retired(bridge_step(b, s), id),
{
    let after = bridge_step(b, s);
    match s {
        BridgeStep::Establish { src_addr, dst_addr, event_room } => {
            if b.establishes(event_room) {
                lemma_has_means_present(b, id);
                lemma_has_means_present(after, id);
                if is_present(after.connections, id) {
                    let k = choose|k: int|
                        0 <= k < after.connections.len() && (#[trigger] after.connections[k]).id
                            == id;
                    if k < b.connections.len() {
                        assert(after.connections[k] == b.connections[k]);
                        assert(b.connections[k].id == id);
                    }
                }
            }
        },
        _ => {
            lemma_step_brings_no_id(b, s);
            lemma_no_new_ids(b, after, id);
        },
    }
}

/// Identifiers are never used again: one that was given out and whose connection has
/// ended stays without a connection whatever happens afterwards.
pub proof fn lemma_retired_ids_stay_retired(b: BridgeView, steps: Seq<BridgeStep>, id: ConnectionId)
    requires
        b.wf(),
        is_retired(b, id),
    ensures
        is_retired(bridge_run(b, steps), id),
    decreases steps.len(),
{
    if steps.len() > 0 {
        lemma_retired_ids_stay_retired(b, steps.drop_last(), id);
        lemma_run_keeps_wf(b, steps.drop_last());
        lemma_step_keeps_retired(bridge_run(b, steps.drop_last()), steps.last(), id);
    }
}

/// A connection ends once: what retires it, a full close, a reset or the shutdown,
/// leaves its identifier retired, so that nothing finds the connection afterwards.
pub proof fn lemma_end_retires(b: BridgeView, id: ConnectionId)
    requires
        b.wf(),
        b.has(id),
    ensures
        is_retired(b.command(TransportCommandView::CloseConnection(id, false)), id),
        is_retired(b.reset(id), id),
        is_retired(b.shutdown(), id),
{
    lemma_index_of_is_first(b.connections, id);
    let i = index_of(b.connections, id)->Some_0;
    let rest = b.connections.remove(i);
    assert forall|k: int| 0 <= k < rest.len() implies (#[trigger] rest[k]).id != id by {
        if k < i {
            assert(rest[k] == b.connections[k]);
        } else {
            assert(rest[k] == b.connections[k + 1]);
        }
    }
    lemma_index_of_absent(rest, id);
    lemma_index_of_absent(Seq::<ConnectionView>::empty(), id);
}

/// After shutdown nothing is served: every command is dropped with the closed signal,
/// no connection is accepted, and no event from the stack changes anything.
pub proof fn lemma_nothing_after_shutdown(b: BridgeView, s: BridgeStep)
    requires
        b.stopped,
        b.connections.len() == 0,
    ensures
        bridge_step(b, s) == b,
        s matches BridgeStep::Command(command) ==> b.reaction(command) == ReactionView::Closed,
{
    assert(b.shutdown().connections =~= b.connections);
}

/// Shutting down twice is shutting down once, and the second time no waiter is left to
/// release.
pub proof fn lemma_shutdown_is_idempotent(b: BridgeView)
    ensures
        b.shutdown().shutdown() == b.shutdown(),
        b.shutdown().shutdown_reply() == Seq::<crate::connection::Released>::empty(),
        b.shutdown().stopped,
{
    assert(b.shutdown().shutdown_reply() =~= Seq::<crate::connection::Released>::empty());
}

} // verus!
