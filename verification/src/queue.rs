//! Queues: the ring with its producer discipline.

use vstd::prelude::*;
use crate::header::{header, spec_head_word, FenceScope, PacketType, SETUP_DIMENSIONS_SHIFT};
use crate::packet::{barrier_body, spec_barrier_packet, DispatchPacket, Packet, PacketBody};
use crate::ring::{RawQueue, RingModel, SEGMENT_SIZE_AUTOMATIC};
use crate::signal::{Signal, SignalRef};

verus! {

/// Whether one producer or several write to a queue.
#[derive(Clone, Copy, Debug, Eq, PartialEq, Structural, Ord, PartialOrd, Hash)]
pub enum QueueType {
    Multiple,
    Single,
}

/// Why a packet was not enqueued.
#[derive(Clone, Copy, Debug, Eq, PartialEq, Structural, Ord, PartialOrd, Hash)]
pub enum QueueError {
    /// No slot is free.
    Full,
    /// A workgroup dimension is zero.
    WorkgroupDimSize,
    /// A grid dimension is zero.
    GridDimSize,
}

/// Why a queue was not created.
#[derive(Clone, Copy, Debug, Eq, PartialEq, Structural, Hash)]
pub enum CreateError {
    /// The number of slots is not a power of two that this machine can
    /// address.
    InvalidArgument,
}

/// A producer discipline around a ring.
pub trait QueueKind {
    /// Whether this discipline goes with a ring that was created for
    /// `queue_type`.
    spec fn spec_accepts(queue_type: QueueType) -> bool;

    /// The ring.
    spec fn spec_raw(&self) -> RawQueue;

    /// The ring.
    fn raw(&self) -> (raw: &RawQueue)
        ensures
            *raw == self.spec_raw(),
    ;

    /// The ring, to work on. What is done to it is done to the queue.
    fn raw_mut(&mut self) -> (raw: &mut RawQueue)
        ensures
            *raw == old(self).spec_raw(),
            final(self).spec_raw() == *final(raw),
    ;
}

/// The invariant of a ring under a producer discipline: the ring's own,
/// and that the ring was created for this discipline.
pub open spec fn kind_wf<K: QueueKind>(kind: &K) -> bool {
    kind.spec_raw().wf() && K::spec_accepts(kind.spec_raw().spec_queue_type())
}

/// A ring with a single producer. Whoever holds the queue exclusively is
/// that producer, so the write index is moved on without ordering.
#[derive(Debug)]
pub struct SingleQueueType(RawQueue);

/// A ring that several producers share. The write index is moved on with
/// release ordering, for the producers to see each other.
#[derive(Debug)]
pub struct MultiQueueType(RawQueue);

impl QueueKind for SingleQueueType {
    open spec fn spec_accepts(queue_type: QueueType) -> bool {
        queue_type == QueueType::Single
    }

    closed spec fn spec_raw(&self) -> RawQueue {
        self.0
    }

    fn raw(&self) -> (raw: &RawQueue) {
        &self.0
    }

    fn raw_mut(&mut self) -> (raw: &mut RawQueue) {
        &mut self.0
    }
}

impl QueueKind for MultiQueueType {
    open spec fn spec_accepts(queue_type: QueueType) -> bool {
        queue_type == QueueType::Multiple
    }

    closed spec fn spec_raw(&self) -> RawQueue {
        self.0
    }

    fn raw(&self) -> (raw: &RawQueue) {
        &self.0
    }

    fn raw_mut(&mut self) -> (raw: &mut RawQueue) {
        &mut self.0
    }
}

/// A ring by itself follows the discipline that it was created for,
/// whichever it is.
impl QueueKind for RawQueue {
    open spec fn spec_accepts(queue_type: QueueType) -> bool {
        true
    }

    open spec fn spec_raw(&self) -> RawQueue {
        *self
    }

    fn raw(&self) -> (raw: &RawQueue) {
        self
    }

    fn raw_mut(&mut self) -> (raw: &mut RawQueue) {
        self
    }
}

/// A queue that takes packets of every kind.
#[derive(Debug)]
pub struct Queue<T> where T: QueueKind {
    sys: T,
    has_callback: bool,
}

/// A queue that takes kernel dispatches and barriers.
#[derive(Debug)]
pub struct KernelQueue<T> where T: QueueKind {
    sys: T,
}

pub type SingleQueue = Queue<SingleQueueType>;

pub type MultiQueue = Queue<MultiQueueType>;

pub type KernelSingleQueue = KernelQueue<SingleQueueType>;

pub type KernelMultiQueue = KernelQueue<MultiQueueType>;

/// The producer's side of a queue.
pub trait RingQueue {
    type Kind: QueueKind;

    /// The ring under its producer discipline.
    spec fn spec_raw_queue(&self) -> Self::Kind;

    /// The ring under its producer discipline.
    fn raw_queue(&self) -> (kind: &Self::Kind)
        ensures
            *kind == self.spec_raw_queue(),
    ;

    /// The ring under its producer discipline, to work on. What is done to
    /// it is done to the queue.
    fn raw_queue_mut(&mut self) -> (kind: &mut Self::Kind)
        ensures
            *kind == old(self).spec_raw_queue(),
            final(self).spec_raw_queue() == *final(kind),
    ;

    /// The doorbell signal.
    fn doorbell_ref(&self) -> (doorbell: &Signal)
        ensures
            doorbell@ == self.spec_raw_queue().spec_raw()@.doorbell,
    {
        self.raw_queue().raw().doorbell_ref()
    }

    /// Enqueues one packet that is published under `header` and `setup`.
    /// See [`RawQueue::try_enqueue_packet`].
    fn try_enqueue_packet(&mut self, header: u16, setup: u16, body: PacketBody) -> (result: Result<
        (),
        QueueError,
    >)
        requires
            kind_wf(&old(self).spec_raw_queue()),
            old(self).spec_raw_queue().spec_raw()@.write_index < i64::MAX,
        ensures
            kind_wf(&final(self).spec_raw_queue()),
            final(self).spec_raw_queue().spec_raw().same_parameters(
                &old(self).spec_raw_queue().spec_raw(),
            ),
            result == old(self).spec_raw_queue().spec_raw()@.enqueue_result(),
            final(self).spec_raw_queue().spec_raw()@ == old(self).spec_raw_queue().spec_raw()@.enqueue(
                Packet { head: spec_head_word(header, setup), body },
            ),
    {
        self.raw_queue_mut().raw_mut().try_enqueue_packet(header, setup, body)
    }

    /// Enqueues one packet whose body `body_writer` makes from the body
    /// that the slot held, once a slot is free for it. See
    /// [`RawQueue::try_enqueue_with`].
    fn try_enqueue_with<F>(&mut self, header: u16, setup: u16, body_writer: F) -> (result: Result<
        (),
        QueueError,
    >) where F: FnOnce(PacketBody) -> PacketBody
        requires
            kind_wf(&old(self).spec_raw_queue()),
            old(self).spec_raw_queue().spec_raw()@.write_index < i64::MAX,
            forall|stale: PacketBody| call_requires(body_writer, (stale,)),
        ensures
            kind_wf(&final(self).spec_raw_queue()),
            final(self).spec_raw_queue().spec_raw().same_parameters(
                &old(self).spec_raw_queue().spec_raw(),
            ),
            result == old(self).spec_raw_queue().spec_raw()@.enqueue_result(),
            ({
                let before = old(self).spec_raw_queue().spec_raw()@;
                let after = final(self).spec_raw_queue().spec_raw()@;
                let slot = before.slot_of(before.write_index);
                &&& after == before.enqueue(
                    Packet { head: spec_head_word(header, setup), body: after.slots[slot].body },
                )
                &&& result is Ok ==> call_ensures(
                    body_writer,
                    (before.slots[slot].body,),
                    after.slots[slot].body,
                )
            }),
    {
        self.raw_queue_mut().raw_mut().try_enqueue_with(header, setup, body_writer)
    }

    /// Enqueues a barrier that lets later packets of this queue start once
    /// all of its dependency signals have reached zero. Up to five of
    /// `deps` are taken, in their order; who has more chains barriers. The
    /// ordering bit of the header is set where a completion signal is
    /// given.
    fn try_enqueue_barrier_and(&mut self, deps: &[SignalRef], completion: Option<SignalRef>) -> (result:
        Result<(), QueueError>)
        requires
            kind_wf(&old(self).spec_raw_queue()),
            old(self).spec_raw_queue().spec_raw()@.write_index < i64::MAX,
        ensures
            kind_wf(&final(self).spec_raw_queue()),
            final(self).spec_raw_queue().spec_raw().same_parameters(
                &old(self).spec_raw_queue().spec_raw(),
            ),
            result == old(self).spec_raw_queue().spec_raw()@.enqueue_result(),
            final(self).spec_raw_queue().spec_raw()@ == old(self).spec_raw_queue().spec_raw()@.enqueue(
                spec_barrier_packet(PacketType::BarrierAnd, deps@, completion),
            ),
    {
        let ty: u16 = header(
            PacketType::BarrierAnd,
            &FenceScope::NoFence,
            &FenceScope::NoFence,
            completion.is_some(),
        );
        let body = barrier_body(deps, completion);
        self.try_enqueue_packet(ty, 0, PacketBody::Barrier(body))
    }

    /// Enqueues a barrier that lets later packets of this queue start once
    /// one of its dependency signals has reached zero. Up to five of `deps`
    /// are taken, in their order. The ordering bit of the header is set
    /// where a completion signal is given.
    fn try_enqueue_barrier_or(&mut self, deps: &[SignalRef], completion: Option<SignalRef>) -> (result:
        Result<(), QueueError>)
        requires
            kind_wf(&old(self).spec_raw_queue()),
            old(self).spec_raw_queue().spec_raw()@.write_index < i64::MAX,
        ensures
            kind_wf(&final(self).spec_raw_queue()),
            final(self).spec_raw_queue().spec_raw().same_parameters(
                &old(self).spec_raw_queue().spec_raw(),
            ),
            result == old(self).spec_raw_queue().spec_raw()@.enqueue_result(),
            final(self).spec_raw_queue().spec_raw()@ == old(self).spec_raw_queue().spec_raw()@.enqueue(
                spec_barrier_packet(PacketType::BarrierOr, deps@, completion),
            ),
    {
        let ty: u16 = header(
            PacketType::BarrierOr,
            &FenceScope::NoFence,
            &FenceScope::NoFence,
            completion.is_some(),
        );
        let body = barrier_body(deps, completion);
        self.try_enqueue_packet(ty, 0, PacketBody::Barrier(body))
    }

    /// Enqueues a kernel launch. The launch is checked before a write index
    /// is taken: one with a workgroup or grid dimension of zero is refused
    /// and leaves the queue as it was, whatever its write index.
    fn try_enqueue_kernel_dispatch(&mut self, dispatch: DispatchPacket) -> (result: Result<
        (),
        QueueError,
    >)
        requires
            kind_wf(&old(self).spec_raw_queue()),
            dispatch.spec_check() is Ok ==> old(self).spec_raw_queue().spec_raw()@.write_index
                < i64::MAX,
        ensures
            kind_wf(&final(self).spec_raw_queue()),
            final(self).spec_raw_queue().spec_raw().same_parameters(
                &old(self).spec_raw_queue().spec_raw(),
            ),
            result == match dispatch.spec_check() {
                Err(refused) => Err(refused),
                Ok(_) => old(self).spec_raw_queue().spec_raw()@.enqueue_result(),
            },
            final(self).spec_raw_queue().spec_raw()@ == match dispatch.spec_check() {
                Err(_) => old(self).spec_raw_queue().spec_raw()@,
                Ok(_) => old(self).spec_raw_queue().spec_raw()@.enqueue(dispatch.spec_packet()),
            },
            dispatch.spec_check() is Err ==> final(self).spec_raw_queue().spec_raw()@.write_index
                == old(self).spec_raw_queue().spec_raw()@.write_index,
    {
        // check the packet params before we get a write index.
        match dispatch.check() {
            Err(refused) => {
                return Err(refused);
            },
            Ok(_) => {},
        }
        let ty: u16 = header(
            PacketType::KernelDispatch,
            &dispatch.scaquire_scope,
            &dispatch.screlease_scope,
            dispatch.ordered,
        );
        let mut staged: Packet = Packet::vacant();
        let grid_size: usize = dispatch.initialize_packet(&mut staged);
        let dims: u16 = grid_size as u16;
        assert(dims << 0u16 == dims) by (bit_vector);
        let setup: u16 = dims << SETUP_DIMENSIONS_SHIFT;
        self.try_enqueue_packet(ty, setup, staged.body)
    }
}

/// The invariant of a queue: that of its ring under its discipline.
pub open spec fn queue_wf<Q: RingQueue + ?Sized>(queue: &Q) -> bool {
    kind_wf(&queue.spec_raw_queue())
}

impl<T> RingQueue for Queue<T> where T: QueueKind {
    type Kind = T;

    closed spec fn spec_raw_queue(&self) -> T {
        self.sys
    }

    fn raw_queue(&self) -> (kind: &T) {
        &self.sys
    }

    fn raw_queue_mut(&mut self) -> (kind: &mut T) {
        &mut self.sys
    }
}

impl<T> RingQueue for KernelQueue<T> where T: QueueKind {
    type Kind = T;

    closed spec fn spec_raw_queue(&self) -> T {
        self.sys
    }

    fn raw_queue(&self) -> (kind: &T) {
        &self.sys
    }

    fn raw_queue_mut(&mut self) -> (kind: &mut T) {
        &mut self.sys
    }
}

impl<T> RingQueue for Box<T> where T: RingQueue {
    type Kind = T::Kind;

    open spec fn spec_raw_queue(&self) -> T::Kind {
        (**self).spec_raw_queue()
    }

    fn raw_queue(&self) -> (kind: &T::Kind) {
        (**self).raw_queue()
    }

    fn raw_queue_mut(&mut self) -> (kind: &mut T::Kind) {
        (**self).raw_queue_mut()
    }
}

impl<T> Queue<T> where T: QueueKind {
    pub closed spec fn spec_has_callback(&self) -> bool {
        self.has_callback
    }

    /// Whether the queue was created with a callback for its errors.
    pub fn has_callback(&self) -> (has: bool)
        ensures
            has == self.spec_has_callback(),
    {
        self.has_callback
    }
}

/// The segment size that a queue is created with for `size`: the size,
/// and the choice left to the queue where none is given.
pub open spec fn spec_segment_size(size: Option<u32>) -> u32 {
    match size {
        Some(size) => size,
        None => SEGMENT_SIZE_AUTOMATIC,
    }
}

/// The feature bits of a queue that takes kernel dispatches, agent
/// dispatches, both or neither.
pub open spec fn spec_features(kernel_dispatch: bool, agent_dispatch: bool) -> u32 {
    ((if kernel_dispatch {
        1int
    } else {
        0int
    }) + (if agent_dispatch {
        2int
    } else {
        0int
    })) as u32
}

/// What a ring is right after it was created with these parameters.
pub open spec fn spec_created(
    raw: RawQueue,
    size: u64,
    queue_type: QueueType,
    features: u32,
    private_segment_size: Option<u32>,
    group_segment_size: Option<u32>,
) -> bool {
    &&& raw.wf()
    &&& raw@ == RingModel::fresh(size as nat)
    &&& raw.spec_queue_type() == queue_type
    &&& raw.spec_features() == features
    &&& raw.spec_private_segment_size() == spec_segment_size(private_segment_size)
    &&& raw.spec_group_segment_size() == spec_segment_size(group_segment_size)
}

/// A device that queues are created on.
#[derive(Clone, Copy, Debug, PartialEq, Eq, Structural, Hash)]
pub struct Agent {
    handle: u64,
}

fn segment_size(size: Option<u32>) -> (chosen: u32)
    ensures
        chosen == spec_segment_size(size),
{
    match size {
        Some(size) => size,
        None => SEGMENT_SIZE_AUTOMATIC,
    }
}

impl Agent {
    pub closed spec fn spec_handle(&self) -> u64 {
        self.handle
    }

    /// The device with this handle.
    pub fn new(handle: u64) -> (agent: Agent)
        ensures
            agent.spec_handle() == handle,
    {
        Agent { handle }
    }

    /// The device's handle.
    pub fn handle(&self) -> (handle: u64)
        ensures
            handle == self.spec_handle(),
    {
        self.handle
    }

    /// Creates a queue of `size` slots for kernel dispatches from a single
    /// producer. Refused where `size` is not a power of two.
    pub fn new_kernel_queue(
        &self,
        size: u32,
        private_segment_size: Option<u32>,
        group_segment_size: Option<u32>,
    ) -> (created: Result<KernelSingleQueue, CreateError>)
        ensures
            created is Ok <==> RawQueue::spec_valid_size(size as u64),
            created matches Ok(queue) ==> queue_wf(&queue) && spec_created(
                queue.spec_raw_queue().spec_raw(),
                size as u64,
                QueueType::Single,
                crate::ring::QUEUE_FEATURE_KERNEL_DISPATCH,
                private_segment_size,
                group_segment_size,
            ),
            created matches Err(error) ==> error == CreateError::InvalidArgument,
    {
        let raw = RawQueue::create(
            size as u64,
            QueueType::Single,
            crate::ring::QUEUE_FEATURE_KERNEL_DISPATCH,
            segment_size(private_segment_size),
            segment_size(group_segment_size),
            Signal::new(-1),
        );
        match raw {
            Some(raw) => Ok(KernelQueue { sys: SingleQueueType(raw) }),
            None => Err(CreateError::InvalidArgument),
        }
    }

    /// Creates a queue of `size` slots for kernel dispatches from several
    /// producers. Refused where `size` is not a power of two.
    pub fn new_kernel_multi_queue(
        &self,
        size: u32,
        private_segment_size: Option<u32>,
        group_segment_size: Option<u32>,
    ) -> (created: Result<KernelMultiQueue, CreateError>)
        ensures
            created is Ok <==> RawQueue::spec_valid_size(size as u64),
            created matches Ok(queue) ==> queue_wf(&queue) && spec_created(
                queue.spec_raw_queue().spec_raw(),
                size as u64,
                QueueType::Multiple,
                crate::ring::QUEUE_FEATURE_KERNEL_DISPATCH,
                private_segment_size,
                group_segment_size,
            ),
            created matches Err(error) ==> error == CreateError::InvalidArgument,
    {
        let raw = RawQueue::create(
            size as u64,
            QueueType::Multiple,
            crate::ring::QUEUE_FEATURE_KERNEL_DISPATCH,
            segment_size(private_segment_size),
            segment_size(group_segment_size),
            Signal::new(-1),
        );
        match raw {
            Some(raw) => Ok(KernelQueue { sys: MultiQueueType(raw) }),
            None => Err(CreateError::InvalidArgument),
        }
    }

    /// Creates a queue of `size` slots for packets of every kind from a
    /// single producer. `callback` is kept for the queue's errors; nothing
    /// calls it. Refused where `size` is not a power of two.
    pub fn new_queue<F>(
        &self,
        size: u32,
        callback: Option<F>,
        private_segment_size: Option<u32>,
        group_segment_size: Option<u32>,
    ) -> (created: Result<Queue<SingleQueueType>, CreateError>) where F: FnMut() + 'static
        ensures
            created is Ok <==> RawQueue::spec_valid_size(size as u64),
            created matches Ok(queue) ==> queue_wf(&queue) && spec_created(
                queue.spec_raw_queue().spec_raw(),
                size as u64,
                QueueType::Single,
                spec_features(true, true),
                private_segment_size,
                group_segment_size,
            ) && queue.spec_has_callback() == (callback is Some),
            created matches Err(error) ==> error == CreateError::InvalidArgument,
    {
        let has_callback = callback.is_some();
        let raw = RawQueue::create(
            size as u64,
            QueueType::Single,
            crate::ring::QUEUE_FEATURE_KERNEL_DISPATCH | crate::ring::QUEUE_FEATURE_AGENT_DISPATCH,
            segment_size(private_segment_size),
            segment_size(group_segment_size),
            Signal::new(-1),
        );
        assert(1u32 | 2u32 == 3u32) by (bit_vector);
        match raw {
            Some(raw) => Ok(Queue { sys: SingleQueueType(raw), has_callback }),
            None => Err(CreateError::InvalidArgument),
        }
    }

    /// Creates a queue of `size` slots for packets of every kind from
    /// several producers. `callback` is kept for the queue's errors;
    /// nothing calls it. Refused where `size` is not a power of two.
    pub fn new_multi_queue<F>(
        &self,
        size: u32,
        callback: Option<F>,
        private_segment_size: Option<u32>,
        group_segment_size: Option<u32>,
    ) -> (created: Result<Queue<MultiQueueType>, CreateError>) where F: FnMut() + 'static
        ensures
            created is Ok <==> RawQueue::spec_valid_size(size as u64),
            created matches Ok(queue) ==> queue_wf(&queue) && spec_created(
                queue.spec_raw_queue().spec_raw(),
                size as u64,
                QueueType::Multiple,
                spec_features(true, true),
                private_segment_size,
                group_segment_size,
            ) && queue.spec_has_callback() == (callback is Some),
            created matches Err(error) ==> error == CreateError::InvalidArgument,
    {
        let has_callback = callback.is_some();
        let raw = RawQueue::create(
            size as u64,
            QueueType::Multiple,
            crate::ring::QUEUE_FEATURE_KERNEL_DISPATCH | crate::ring::QUEUE_FEATURE_AGENT_DISPATCH,
            segment_size(private_segment_size),
            segment_size(group_segment_size),
            Signal::new(-1),
        );
        assert(1u32 | 2u32 == 3u32) by (bit_vector);
        match raw {
            Some(raw) => Ok(Queue { sys: MultiQueueType(raw), has_callback }),
            None => Err(CreateError::InvalidArgument),
        }
    }
}

} // verus!
