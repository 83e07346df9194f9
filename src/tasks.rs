//! The decisions of the two endpoint tasks, as state machines. The driver
//! awaits what an action asks for (the endpoint enabled, a packet of
//! samples, a transfer) and hands the outcome back as an event; the machines
//! themselves never wait.

use vstd::prelude::*;
use crate::codec::{parse, Command};
use crate::ring::{RingBuffer, RingModel};

verus! {

/// Where the outbound streaming task stands.
#[derive(Clone, Copy, Debug, PartialEq, Eq, Structural)]
pub enum StreamPhase {
    /// Waiting for the host to enable the outbound endpoint.
    AwaitEnabled,
    /// Waiting for a packet of samples from the capture buffer.
    AwaitRead,
    /// Waiting for a packet to go out to the host.
    AwaitWrite,
}

/// What happened to the outbound task's last action.
#[derive(Clone, Copy, Debug, PartialEq, Eq, Structural)]
pub enum StreamEvent {
    Enabled,
    ReadDone,
    ReadFailed,
    WriteDone,
    WriteFailed,
}

/// What the driver of the outbound task does next.
#[derive(Clone, Copy, Debug, PartialEq, Eq, Structural)]
pub enum StreamAction {
    /// Await the outbound endpoint's enabling.
    WaitEnabled,
    /// Read one packet's worth of samples from the capture buffer.
    Read,
    /// Send the packet just read.
    Send,
}

/// The outbound streaming task: enabled endpoint, then start capture once,
/// then read and send packets without end. A failed read drops what was
/// missed and reads on; a failed send drops it too and waits for the
/// endpoint to be enabled again.
#[derive(Clone, Copy, Debug, PartialEq, Eq, Structural)]
pub struct StreamTask {
    pub phase: StreamPhase,
    pub started: bool,
}

impl StreamTask {
    /// The task's state after `ev`.
    pub open spec fn next(self, ev: StreamEvent) -> StreamTask {
        match (self.phase, ev) {
            (StreamPhase::AwaitEnabled, StreamEvent::Enabled) => StreamTask {
                phase: StreamPhase::AwaitRead,
                started: true,
            },
            (StreamPhase::AwaitRead, StreamEvent::ReadDone) => StreamTask {
                phase: StreamPhase::AwaitWrite,
                ..self
            },
            (StreamPhase::AwaitWrite, StreamEvent::WriteDone) => StreamTask {
                phase: StreamPhase::AwaitRead,
                ..self
            },
            (StreamPhase::AwaitWrite, StreamEvent::WriteFailed) => StreamTask {
                phase: StreamPhase::AwaitEnabled,
                ..self
            },
            _ => self,
        }
    }

    /// What the driver does after `ev`: what the new phase waits for.
    pub open spec fn action(self, ev: StreamEvent) -> StreamAction {
        match self.next(ev).phase {
            StreamPhase::AwaitEnabled => StreamAction::WaitEnabled,
            StreamPhase::AwaitRead => StreamAction::Read,
            StreamPhase::AwaitWrite => StreamAction::Send,
        }
    }

    /// What `ev` does to the capture buffer: the first enabling arms the
    /// producer; a failed read or send resynchronises the consumer.
    pub open spec fn ring_after(self, ev: StreamEvent, m: RingModel) -> RingModel {
        match (self.phase, ev) {
            (StreamPhase::AwaitEnabled, StreamEvent::Enabled) => if self.started {
                m
            } else {
                RingModel { armed: true, ..m }
            },
            (StreamPhase::AwaitRead, StreamEvent::ReadFailed) => m.clear(),
            (StreamPhase::AwaitWrite, StreamEvent::WriteFailed) => m.clear(),
            _ => m,
        }
    }

    /// The task's invariant with the capture buffer it drives: it is past
    /// waiting for its endpoint only once it has started capture, and a
    /// started capture has its producer armed.
    pub open spec fn consistent(self, m: RingModel) -> bool {
        &&& self.phase != StreamPhase::AwaitEnabled ==> self.started
        &&& self.started ==> m.armed
    }

    /// A task that has not seen its endpoint enabled yet.
    pub fn new() -> (r: StreamTask)
        ensures
            r == (StreamTask { phase: StreamPhase::AwaitEnabled, started: false }),
            forall|m: RingModel| #[trigger] r.consistent(m),
    {
        StreamTask { phase: StreamPhase::AwaitEnabled, started: false }
    }

    /// Takes one event, acts on the capture buffer, and says what to await
    /// next. An event that the phase does not wait for changes nothing.
    pub fn step(&mut self, ring: &mut RingBuffer, ev: StreamEvent) -> (r: StreamAction)
        requires
            old(ring).wf(),
        ensures
            final(ring).wf(),
            *final(self) == old(self).next(ev),
            r == old(self).action(ev),
            final(ring)@ == old(self).ring_after(ev, old(ring)@),
            old(self).consistent(old(ring)@) ==> final(self).consistent(final(ring)@),
    {
        match (self.phase, ev) {
            (StreamPhase::AwaitEnabled, StreamEvent::Enabled) => {
                if !self.started {
                    ring.start();
                    self.started = true;
                }
                self.phase = StreamPhase::AwaitRead;
            },
            (StreamPhase::AwaitRead, StreamEvent::ReadDone) => {
                self.phase = StreamPhase::AwaitWrite;
            },
            (StreamPhase::AwaitRead, StreamEvent::ReadFailed) => {
                ring.clear();
            },
            (StreamPhase::AwaitWrite, StreamEvent::WriteDone) => {
                self.phase = StreamPhase::AwaitRead;
            },
            (StreamPhase::AwaitWrite, StreamEvent::WriteFailed) => {
                ring.clear();
                self.phase = StreamPhase::AwaitEnabled;
            },
            _ => {},
        }
        match self.phase {
            StreamPhase::AwaitEnabled => StreamAction::WaitEnabled,
            StreamPhase::AwaitRead => StreamAction::Read,
            StreamPhase::AwaitWrite => StreamAction::Send,
        }
    }
}

/// Once the outbound task has started capture, the producer stays armed,
/// whatever events follow: consistency is kept by every step.
pub proof fn lemma_step_keeps_consistent(t: StreamTask, ev: StreamEvent, m: RingModel)
    requires
        t.consistent(m),
    ensures
        t.next(ev).consistent(t.ring_after(ev, m)),
        t.started ==> t.next(ev).started,
{
}

/// Recovery of the outbound task: a failed read or send ends in nothing
/// worse than a cleared capture buffer; after a failed send the task waits
/// for its endpoint and, once enabled again, reads on from the newest sample
/// without re-arming the producer.
pub proof fn lemma_outbound_recovers(t: StreamTask, m: RingModel)
    requires
        t.consistent(m),
    ensures
        t.phase == StreamPhase::AwaitRead ==> {
            &&& t.action(StreamEvent::ReadFailed) == StreamAction::Read
            &&& t.ring_after(StreamEvent::ReadFailed, m) == m.clear()
        },
        t.phase == StreamPhase::AwaitWrite ==> {
            let t1 = t.next(StreamEvent::WriteFailed);
            let m1 = t.ring_after(StreamEvent::WriteFailed, m);
            &&& t.action(StreamEvent::WriteFailed) == StreamAction::WaitEnabled
            &&& t1.action(StreamEvent::Enabled) == StreamAction::Read
            &&& t1.next(StreamEvent::Enabled) == t.next(StreamEvent::WriteDone)
            &&& t1.ring_after(StreamEvent::Enabled, m1) == m.clear()
        },
        t.phase != StreamPhase::AwaitEnabled ==> {
            &&& m.clear().lag() == 0
            &&& !m.clear().faulted
            &&& m.clear().armed
        },
{
}

/// Why an inbound packet yielded no command.
#[derive(Clone, Copy, Debug, PartialEq, Eq, Structural)]
pub enum InboundError {
    /// The packet is not the frame of any command.
    DecodeFailure,
}

/// The inbound command task: once the endpoint is enabled it receives
/// packets and decodes each; a failed transfer sends it back to waiting for
/// the endpoint.
#[derive(Clone, Copy, Debug, PartialEq, Eq, Structural)]
pub struct InboundTask {
    pub receiving: bool,
}

impl InboundTask {
    /// A task that has not seen its endpoint enabled yet.
    pub fn new() -> (r: InboundTask)
        ensures
            !r.receiving,
    {
        InboundTask { receiving: false }
    }

    /// The endpoint is enabled: receive from now on.
    pub fn on_enabled(&mut self)
        ensures
            final(self).receiving,
    {
        self.receiving = true;
    }

    /// A transfer failed: wait for the endpoint again.
    pub fn on_transfer_error(&mut self)
        ensures
            !final(self).receiving,
    {
        self.receiving = false;
    }

    /// Whether the driver should receive (else await the endpoint).
    pub fn wants_packet(&self) -> (r: bool)
        ensures
            r == self.receiving,
    {
        self.receiving
    }

    /// Decodes the bytes of one received packet into the command it holds.
    pub fn on_packet(&self, bytes: &[u8]) -> (r: Result<Command, InboundError>)
        ensures
            match parse(bytes@) {
                Some(c) => r == Ok::<Command, InboundError>(c),
                None => r == Err::<Command, InboundError>(InboundError::DecodeFailure),
            },
    {
        match Command::deserialize(bytes) {
            Some(c) => Ok(c),
            None => Err(InboundError::DecodeFailure),
        }
    }
}

} // verus!
