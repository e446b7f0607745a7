//! The consumer's side of a queue that software drains.

use vstd::prelude::*;
use std::marker::PhantomData;
use crate::packet::{KernelDispatchBody, Packet, PacketBody};
use crate::queue::{CreateError, QueueType, RingQueue};
use crate::ring::{RawQueue, RingModel, SEGMENT_SIZE_AUTOMATIC};
use crate::signal::{spec_pool_subtract, MemoryOrder, Signal, SignalPool};

verus! {

/// What the handler of a draining loop asks for after a packet.
pub enum ProcessLoopResult<T> {
    /// Stop draining and hand this back to the loop's caller.
    Exit(T),
    /// Go on with the next packet.
    Continue,
}

/// How a draining loop ended.
#[derive(Debug)]
pub enum ProcessOutcome<T> {
    /// The handler asked to stop, with this result.
    Exited(T),
    /// The doorbell names no packet that was not read yet. The loop is to
    /// be entered again once a producer has rung.
    WaitingForDoorbell,
}

/// The slot that a draining loop shows to its handler.
pub struct AgentPacket<'a, T> where T: Into<u8> + From<u8> {
    sys: &'a Packet,
    _m: PhantomData<T>,
}

impl<'a, T> AgentPacket<'a, T> where T: Into<u8> + From<u8> {
    /// The slot that is shown.
    pub closed spec fn spec_packet(&self) -> Packet {
        *self.sys
    }

    /// The view that shows `packet`.
    pub closed spec fn spec_of(packet: Packet) -> Self {
        AgentPacket { sys: &packet, _m: PhantomData }
    }

    /// The view that shows a slot shows that slot.
    pub proof fn lemma_shows(packet: Packet)
        ensures
            Self::spec_of(packet).spec_packet() == packet,
    {
    }

    /// The arguments of an agent dispatch; of another slot, nothing.
    pub open spec fn spec_args(&self) -> Seq<u64> {
        match self.spec_packet().body {
            PacketBody::AgentDispatch(body) => body.arg@,
            _ => Seq::empty(),
        }
    }

    /// The whole slot.
    pub fn packet(&self) -> (packet: &Packet)
        ensures
            *packet == self.spec_packet(),
    {
        self.sys
    }

    /// The arguments of an agent dispatch. A slot of another kind has
    /// none.
    pub fn args(&self) -> (args: &[u64])
        ensures
            args@ == self.spec_args(),
    {
        match &self.sys.body {
            PacketBody::AgentDispatch(body) => body.arg.as_slice(),
            _ => {
                let none: &[u64; 0] = &[];
                none.as_slice()
            },
        }
    }

    /// The address that the producer of an agent dispatch wants the result
    /// written to. A slot of another kind has none.
    pub fn return_address(&self) -> (address: Option<u64>)
        ensures
            address == match self.spec_packet().body {
                PacketBody::AgentDispatch(body) => Some(body.return_address),
                _ => None,
            },
    {
        match &self.sys.body {
            PacketBody::AgentDispatch(body) => Some(body.return_address),
            _ => None,
        }
    }

    /// The function that an agent dispatch asks for: the setup field of the
    /// slot's first word.
    pub fn agent_function(&self) -> (function: u16)
        ensures
            function == self.spec_packet().spec_setup(),
    {
        self.sys.setup()
    }

    /// The body of a kernel dispatch. A slot of another kind has none.
    pub fn kernel_dispatch(&self) -> (body: Option<&KernelDispatchBody>)
        ensures
            body == match self.spec_packet().body {
                PacketBody::KernelDispatch(body) => Some(&body),
                _ => None,
            },
    {
        match &self.sys.body {
            PacketBody::KernelDispatch(body) => Some(body),
            _ => None,
        }
    }
}

/// The values of the signals after the completion signal of `packet` was
/// counted down by one. A packet without a completion signal, or with one
/// that is not among the signals, changes nothing.
pub open spec fn spec_complete(values: Seq<i64>, packet: Packet) -> Seq<i64> {
    spec_pool_subtract(values, packet.body.spec_completion_signal(), 1)
}

/// The values of the signals after the next `n` packets of `ring` were
/// retired, each counting its completion signal down by one.
pub open spec fn spec_complete_n(ring: RingModel, values: Seq<i64>, n: nat) -> Seq<i64>
    decreases n,
{
    if n == 0 {
        values
    } else {
        spec_complete(
            spec_complete_n(ring, values, (n - 1) as nat),
            ring.retire_n((n - 1) as nat).front(),
        )
    }
}

/// What the handler said after the `j`-th of `n` packets of a loop that
/// ended with `outcome`: to go on, but for the last packet of a loop that
/// the handler ended.
pub open spec fn spec_verdict<V>(outcome: ProcessOutcome<V>, j: nat, n: nat) -> ProcessLoopResult<V> {
    match outcome {
        ProcessOutcome::Exited(result) => if j + 1 == n {
            ProcessLoopResult::Exit(result)
        } else {
            ProcessLoopResult::Continue
        },
        ProcessOutcome::WaitingForDoorbell => ProcessLoopResult::Continue,
    }
}

/// The number of packets that a loop has retired between two states of a
/// ring.
pub open spec fn spec_handled(before: RingModel, after: RingModel) -> nat {
    (after.read_index - before.read_index) as nat
}

/// The memory that a soft queue's ring is taken from.
#[derive(Clone, Copy, Debug, PartialEq, Eq, Structural, Hash)]
pub struct Region {
    pub handle: u64,
}

/// The runtime that soft queues are created in.
#[derive(Clone, Copy, Debug, PartialEq, Eq, Structural, Hash)]
pub struct ApiContext {}

/// A queue that software drains.
#[derive(Debug)]
pub struct SoftQueue {
    sys: RawQueue,
}

impl ApiContext {
    /// The runtime.
    pub fn new() -> ApiContext {
        ApiContext {  }
    }

    /// Creates a queue of `size` slots that software drains, with
    /// `doorbell_signal` as its doorbell. The doorbell is reset to say that
    /// nothing was published. Refused where `size` is not a power of two.
    pub fn new_soft(
        &self,
        region: Region,
        size: usize,
        queue_type: QueueType,
        kernel_dispatch: bool,
        agent_dispatch: bool,
        doorbell_signal: Signal,
    ) -> (created: Result<SoftQueue, CreateError>)
        ensures
            created is Ok <==> RawQueue::spec_valid_size(size as u64),
            created matches Ok(queue) ==> {
                &&& queue.wf()
                &&& queue@ == RingModel::fresh(size as nat)
                &&& queue.spec_raw().spec_queue_type() == queue_type
                &&& queue.spec_raw().spec_features() == crate::queue::spec_features(
                    kernel_dispatch,
                    agent_dispatch,
                )
                &&& queue.spec_raw().spec_private_segment_size() == SEGMENT_SIZE_AUTOMATIC
                &&& queue.spec_raw().spec_group_segment_size() == SEGMENT_SIZE_AUTOMATIC
            },
            created matches Err(error) ==> error == CreateError::InvalidArgument,
    {
        let mut features: u32 = 0;
        if kernel_dispatch {
            features = features | crate::ring::QUEUE_FEATURE_KERNEL_DISPATCH;
        }
        if agent_dispatch {
            features = features | crate::ring::QUEUE_FEATURE_AGENT_DISPATCH;
        }
        assert(0u32 | 1u32 == 1 && 0u32 | 2u32 == 2 && 1u32 | 2u32 == 3) by (bit_vector);
        let raw = RawQueue::create(
            size as u64,
            queue_type,
            features,
            SEGMENT_SIZE_AUTOMATIC,
            SEGMENT_SIZE_AUTOMATIC,
            doorbell_signal,
        );
        match raw {
            Some(raw) => Ok(SoftQueue { sys: raw }),
            None => Err(CreateError::InvalidArgument),
        }
    }
}

impl View for SoftQueue {
    type V = RingModel;

    /// The state of the queue's ring.
    open spec fn view(&self) -> RingModel {
        self.spec_raw()@
    }
}

impl SoftQueue {
    /// The ring.
    pub closed spec fn spec_raw(&self) -> RawQueue {
        self.sys
    }

    /// The queue's invariant: that of its ring.
    pub open spec fn wf(&self) -> bool {
        self.spec_raw().wf()
    }

    /// The ring.
    pub fn raw(&self) -> (raw: &RawQueue)
        ensures
            *raw == self.spec_raw(),
            raw@ == self@,
    {
        &self.sys
    }

    /// The doorbell signal.
    pub fn doorbell_ref(&self) -> (doorbell: &Signal)
        ensures
            doorbell@ == self@.doorbell,
    {
        self.sys.doorbell_ref()
    }

    /// Drains the queue. The loop is in one of two states. Draining, as
    /// long as the doorbell names a packet that was not read yet, it shows
    /// the slot at the read index to `f`, counts the slot's completion
    /// signal down by one, overwrites the slot's header with the invalid
    /// header and moves the read index on. It ends when `f` asks for it,
    /// after the packet that `f` was shown is retired. Waiting for the
    /// doorbell, it hands control back, for the caller to come again once a
    /// producer has rung: nobody can ring while the caller holds the queue.
    pub fn process<F, U, V>(&mut self, signals: &mut SignalPool, f: F) -> (outcome:
        ProcessOutcome<V>) where
        F: for <'a>FnMut(AgentPacket<'a, U>) -> ProcessLoopResult<V>,
        U: Into<u8> + From<u8>,

        requires
            old(self).wf(),
            forall|shown: AgentPacket<'_, U>| call_requires(f, (shown,)),
        ensures
            final(self).wf(),
            final(self).spec_raw().same_parameters(&old(self).spec_raw()),
            final(self)@.read_index >= old(self)@.read_index,
            final(self)@ == old(self)@.retire_n(spec_handled(old(self)@, final(self)@)),
            final(signals)@ == spec_complete_n(
                old(self)@,
                old(signals)@,
                spec_handled(old(self)@, final(self)@),
            ),
            forall|j: nat|
                j < spec_handled(old(self)@, final(self)@) ==> call_ensures(
                    f,
                    (AgentPacket::<U>::spec_of(#[trigger] old(self)@.retire_n(j).front()),),
                    spec_verdict(outcome, j, spec_handled(old(self)@, final(self)@)),
                ),
            outcome is Exited ==> spec_handled(old(self)@, final(self)@) >= 1,
            outcome is WaitingForDoorbell ==> !final(self)@.ready(),
    {
        let ghost start = self@;
        let ghost start_values = signals@;
        let ghost mut n: nat = 0;
        let mut handler = f;
        loop
            invariant
                handler == f,
                self.wf(),
                self.spec_raw().same_parameters(&old(self).spec_raw()),
                start == old(self)@,
                start_values == old(signals)@,
                self@ == start.retire_n(n),
                self@.read_index == start.read_index + n,
                signals@ == spec_complete_n(start, start_values, n),
                forall|shown: AgentPacket<'_, U>| call_requires(f, (shown,)),
                forall|j: nat|
                    j < n ==> call_ensures(
                        f,
                        (AgentPacket::<U>::spec_of(#[trigger] start.retire_n(j).front()),),
                        ProcessLoopResult::<V>::Continue,
                    ),
                n == spec_handled(start, self@),
            decreases self@.doorbell + 1 - self@.read_index,
        {
            if !self.sys.ready() {
                return ProcessOutcome::WaitingForDoorbell;
            }
            let packet: &Packet = self.sys.front();
            let ret = handler(AgentPacket { sys: packet, _m: PhantomData });
            let completion = packet.body.completion_signal();
            if !completion.is_null() {
                signals.subtract(completion, 1, MemoryOrder::Release);
            }
            self.sys.retire();
            proof {
                start.lemma_retire_n(n + 1);
                n = n + 1;
            }
            match ret {
                ProcessLoopResult::Exit(result) => {
                    return ProcessOutcome::Exited(result);
                },
                ProcessLoopResult::Continue => {},
            }
        }
    }
}

impl RingQueue for SoftQueue {
    type Kind = RawQueue;

    open spec fn spec_raw_queue(&self) -> RawQueue {
        self.spec_raw()
    }

    fn raw_queue(&self) -> (kind: &RawQueue) {
        &self.sys
    }

    fn raw_queue_mut(&mut self) -> (kind: &mut RawQueue) {
        &mut self.sys
    }
}

} // verus!
