//! What the system does about the events that it is told of.

use vstd::prelude::*;

use crate::buffer::bytes_content;
use crate::integration::events::SystemEvent;
use crate::integration::system::{IntegratedBatchSystem, Receipt, received_task};

verus! {

/// What follows from an event.
#[derive(Debug)]
pub enum EventReply {
    /// Nothing more.
    Nothing,
    /// Data was received, and is on its way or rejected.
    Received(Receipt),
    /// An error was counted, and is measured under two names.
    Measured(String, String),
}

impl<V: Copy> IntegratedBatchSystem<V> {
    /// Whether there is room in the counters for an event.
    pub open spec fn can_handle(self, event: SystemEvent, now: u64) -> bool {
        match event {
            SystemEvent::DataReceived { data, timestamp, .. } => {
                &&& self.work_stealing_dispatcher.num_workers > 0
                &&& self.can_receive(data, timestamp, now)
            },
            SystemEvent::DataProcessed { result, .. } => self.can_count(result),
            SystemEvent::ConnectionOpened { .. } => self.stats.total_connections < u64::MAX,
            SystemEvent::ConnectionClosed { .. } => true,
            SystemEvent::BatchCompleted { .. } => self.stats.total_batches_processed < u64::MAX,
            SystemEvent::ErrorOccurred { .. } => self.stats.total_errors < u64::MAX,
        }
    }

    /// Whether `after` is this system once an event was handled, and `reply`
    /// what follows from it.
    pub open spec fn has_handled(
        self,
        after: Self,
        event: SystemEvent,
        now: u64,
        reply: EventReply,
    ) -> bool {
        match event {
            SystemEvent::DataReceived { session_id, data, source_addr, priority, timestamp } => {
                &&& reply matches EventReply::Received(r)
                &&& self.has_received(
                    after,
                    received_task(session_id, data, source_addr, priority, timestamp),
                    now,
                    r,
                )
            },
            SystemEvent::DataProcessed { session_id, result, .. } => {
                &&& reply is Nothing
                &&& self.has_processed(after, session_id@, result, now)
            },
            SystemEvent::ConnectionOpened { addr, session_id } => {
                &&& reply is Nothing
                &&& self.has_opened(after, addr, session_id, now)
            },
            SystemEvent::ConnectionClosed { addr, .. } => {
                &&& reply is Nothing
                &&& self.has_closed(after, addr)
            },
            SystemEvent::BatchCompleted { size, processing_time, .. } => {
                &&& reply is Nothing
                &&& self.has_completed(after, size, processing_time)
            },
            SystemEvent::ErrorOccurred { severity, .. } => {
                &&& reply matches EventReply::Measured(all, one)
                &&& self.has_counted_error(after, severity, (all, one))
            },
        }
    }

    /// Does what an event asks for.
    pub fn handle_event(&mut self, event: SystemEvent, now: u64) -> (reply: EventReply)
        requires
            old(self).wf(),
            old(self).can_handle(event, now),
        ensures
            final(self).wf(),
            old(self).has_handled(*final(self), event, now, reply),
            ({
                let (before, after) = (*old(self), *final(self));
                match event {
                    SystemEvent::DataReceived { data, .. } => after.stats.total_data_received
                        == before.stats.total_data_received + bytes_content(data).len(),
                    SystemEvent::DataProcessed { result, .. } => result.success
                        && result.data is Some
                        ==> after.stats.total_data_sent == before.stats.total_data_sent
                            + bytes_content(
                        result.data->0,
                    ).len(),
                    SystemEvent::ConnectionOpened { addr, session_id } => {
                        &&& after.stats.total_connections == before.stats.total_connections + 1
                        &&& after.active_connections.map().contains_key(addr)
                        &&& after.active_connections.map()[addr].session_id == session_id
                        &&& after.active_connections.map()[addr].opened_at == now
                    },
                    SystemEvent::ConnectionClosed { addr, .. } => {
                        &&& !after.active_connections.map().contains_key(addr)
                        &&& after.stats == before.stats
                    },
                    SystemEvent::BatchCompleted { .. } => after.stats.total_batches_processed
                        == before.stats.total_batches_processed + 1,
                    SystemEvent::ErrorOccurred { .. } => after.stats.total_errors
                        == before.stats.total_errors + 1,
                }
            }),
    {
        match event {
            SystemEvent::DataReceived { session_id, data, source_addr, priority, timestamp } => {
                EventReply::Received(
                    self.handle_data_received(
                        session_id,
                        data,
                        source_addr,
                        priority,
                        timestamp,
                        now,
                    ),
                )
            },
            SystemEvent::DataProcessed { session_id, result, .. } => {
                self.handle_data_processed(session_id.as_slice(), &result, now);
                EventReply::Nothing
            },
            SystemEvent::ConnectionOpened { addr, session_id } => {
                self.handle_connection_opened(addr, session_id, now);
                EventReply::Nothing
            },
            SystemEvent::ConnectionClosed { addr, .. } => {
                self.handle_connection_closed(addr);
                EventReply::Nothing
            },
            SystemEvent::BatchCompleted { size, processing_time, .. } => {
                self.handle_batch_completed(size, processing_time);
                EventReply::Nothing
            },
            SystemEvent::ErrorOccurred { severity, .. } => {
                let (all, one) = self.handle_error_occurred(severity);
                EventReply::Measured(all, one)
            },
        }
    }
}

/// A connection that was opened and closed again leaves no trace among the
/// connections.
pub proof fn closed_connections_are_forgotten<V: Copy>(
    before: IntegratedBatchSystem<V>,
    during: IntegratedBatchSystem<V>,
    after: IntegratedBatchSystem<V>,
    addr: u64,
    session_id: Vec<u8>,
    now: u64,
)
    requires
        !before.active_connections.map().contains_key(addr),
        before.has_opened(during, addr, session_id, now),
        during.has_closed(after, addr),
    ensures
        after.active_connections.map() == before.active_connections.map(),
{
    assert(after.active_connections.map() =~= before.active_connections.map());
}

} // verus!
