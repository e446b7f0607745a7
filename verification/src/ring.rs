//! The ring: a power-of-two array of slots between a write index and a read
//! index, and the doorbell that tells the consumer how far it may read.

use vstd::prelude::*;
use vstd::arithmetic::power2::{lemma2_to64, lemma2_to64_rest, lemma_pow2_pos, pow2};
use vstd::bits::{low_bits_mask, lemma_u64_low_bits_mask_is_mod};
use crate::header::{header, spec_head_word, FenceScope, PacketType};
use crate::packet::{invalidate, packet_store_rel, spec_invalidated, Packet, PacketBody};
use crate::queue::{QueueError, QueueType};
use crate::signal::{MemoryOrder, Signal, WaitCondition, WaitState};

verus! {

/// The queue feature bit of a queue that takes kernel dispatches.
pub const QUEUE_FEATURE_KERNEL_DISPATCH: u32 = 1;

/// The queue feature bit of a queue that takes agent dispatches.
pub const QUEUE_FEATURE_AGENT_DISPATCH: u32 = 2;

/// The segment size that leaves the choice to the queue.
pub const SEGMENT_SIZE_AUTOMATIC: u32 = 0xffff_ffff;

/// Whether `n` is one of the powers of two from 2^0 to 2^63.
pub open spec fn spec_is_power_of_two(n: nat) -> bool {
    exists|k: nat| k < 64 && n == #[trigger] pow2(k)
}

/// The state of a ring.
///
/// Packet `i` is the one that was given the write index `i`; it lives in
/// slot `i % capacity`. The doorbell holds the index of the packet that was
/// published last, and -1 before the first.
pub struct RingModel {
    pub capacity: nat,
    pub write_index: nat,
    pub read_index: nat,
    pub doorbell: int,
    pub slots: Seq<Packet>,
}

/// One step of a producer or of the consumer.
pub enum RingStep {
    /// A producer attempts to enqueue the packet.
    Enqueue(Packet),
    /// The consumer retires the packet at the read index, if the doorbell
    /// lets it through.
    Retire,
}

impl RingModel {
    /// The ring's invariant.
    pub open spec fn wf(self) -> bool {
        &&& spec_is_power_of_two(self.capacity)
        &&& self.slots.len() == self.capacity
        &&& self.read_index <= self.doorbell + 1
        &&& self.doorbell - self.read_index < self.capacity
        &&& -1 <= self.doorbell < self.write_index
    }

    /// Whether the indices fit the machine: a doorbell holds the index of
    /// a packet in a signed word.
    pub open spec fn indices_fit(self) -> bool {
        self.write_index <= i64::MAX
    }

    /// A ring of `capacity` vacant slots that nothing was written to.
    pub open spec fn fresh(capacity: nat) -> RingModel {
        RingModel {
            capacity,
            write_index: 0,
            read_index: 0,
            doorbell: -1,
            slots: Seq::new(capacity, |i: int| Packet::spec_vacant()),
        }
    }

    /// The slot that packet `index` lives in.
    pub open spec fn slot_of(self, index: nat) -> int {
        (index % self.capacity) as int
    }

    /// The number of write indices handed out and not yet read past.
    pub open spec fn occupancy(self) -> int {
        self.write_index - self.read_index
    }

    /// Whether the next write index finds no free slot.
    pub open spec fn is_full(self) -> bool {
        self.write_index - self.read_index >= self.capacity
    }

    /// What an attempt to enqueue comes back with.
    pub open spec fn enqueue_result(self) -> Result<(), QueueError> {
        if self.is_full() {
            Err(QueueError::Full)
        } else {
            Ok(())
        }
    }

    /// The ring after an attempt to enqueue `packet`. The attempt takes the
    /// next write index in either case. Where the ring is full nothing else
    /// changes; else the packet is written to its slot and the doorbell is
    /// set to its index.
    ///
    /// The index of a refused attempt is given up: no later attempt is
    /// handed it, and the consumer, once the doorbell has passed it, is
    /// shown its slot as it was left.
    pub open spec fn enqueue(self, packet: Packet) -> RingModel {
        if self.is_full() {
            RingModel { write_index: self.write_index + 1, ..self }
        } else {
            RingModel {
                write_index: self.write_index + 1,
                doorbell: self.write_index as int,
                slots: self.slots.update(self.slot_of(self.write_index), packet),
                ..self
            }
        }
    }

    /// Whether the doorbell lets the consumer read the packet at the read
    /// index.
    pub open spec fn ready(self) -> bool {
        self.doorbell >= self.read_index
    }

    /// The slot at the read index.
    pub open spec fn front(self) -> Packet {
        self.slots[self.slot_of(self.read_index)]
    }

    /// The ring after the consumer is done with the packet at the read
    /// index: the slot's header is invalid and the read index has moved on.
    pub open spec fn retire(self) -> RingModel {
        RingModel {
            read_index: self.read_index + 1,
            slots: self.slots.update(self.slot_of(self.read_index), spec_invalidated(self.front())),
            ..self
        }
    }

    /// The ring after the consumer is done with the next `n` packets.
    pub open spec fn retire_n(self, n: nat) -> RingModel
        decreases n,
    {
        if n == 0 {
            self
        } else {
            self.retire_n((n - 1) as nat).retire()
        }
    }

    /// The ring after attempts to enqueue each of `packets`, in their
    /// order.
    pub open spec fn enqueue_all(self, packets: Seq<Packet>) -> RingModel
        decreases packets.len(),
    {
        if packets.len() == 0 {
            self
        } else {
            self.enqueue_all(packets.drop_last()).enqueue(packets.last())
        }
    }

    /// The ring after one step of a producer or of the consumer.
    pub open spec fn step(self, step: RingStep) -> RingModel {
        match step {
            RingStep::Enqueue(packet) => self.enqueue(packet),
            RingStep::Retire => if self.ready() {
                self.retire()
            } else {
                self
            },
        }
    }

    /// The ring after the steps of producers and of the consumer, in their
    /// order.
    pub open spec fn run(self, steps: Seq<RingStep>) -> RingModel
        decreases steps.len(),
    {
        if steps.len() == 0 {
            self
        } else {
            self.run(steps.drop_last()).step(steps.last())
        }
    }

    /// What became of each attempt to enqueue in a run of steps, in the
    /// order of the attempts and so of their write indices: the packet,
    /// where it was accepted.
    pub open spec fn attempts(self, steps: Seq<RingStep>) -> Seq<Option<Packet>>
        decreases steps.len(),
    {
        if steps.len() == 0 {
            Seq::empty()
        } else {
            let before = self.attempts(steps.drop_last());
            match steps.last() {
                RingStep::Enqueue(packet) => if self.run(steps.drop_last()).is_full() {
                    before.push(None)
                } else {
                    before.push(Some(packet))
                },
                RingStep::Retire => before,
            }
        }
    }

    /// What the consumer was shown in a run of steps: the slot at the read
    /// index, each time it retired one.
    pub open spec fn shown(self, steps: Seq<RingStep>) -> Seq<Packet>
        decreases steps.len(),
    {
        if steps.len() == 0 {
            Seq::empty()
        } else {
            let before = self.shown(steps.drop_last());
            match steps.last() {
                RingStep::Enqueue(_) => before,
                RingStep::Retire => if self.run(steps.drop_last()).ready() {
                    before.push(self.run(steps.drop_last()).front())
                } else {
                    before
                },
            }
        }
    }

    /// Retiring packets moves the read index and nothing else but slots.
    pub proof fn lemma_retire_n(self, n: nat)
        ensures
            self.retire_n(n).read_index == self.read_index + n,
            self.retire_n(n).write_index == self.write_index,
            self.retire_n(n).doorbell == self.doorbell,
            self.retire_n(n).capacity == self.capacity,
        decreases n,
    {
        if n > 0 {
            self.lemma_retire_n((n - 1) as nat);
        }
    }

    /// An attempt to enqueue keeps the invariant.
    pub proof fn lemma_enqueue_wf(self, packet: Packet)
        requires
            self.wf(),
        ensures
            self.enqueue(packet).wf(),
            self.enqueue(packet).capacity == self.capacity,
    {
        let k = choose|k: nat| k < 64 && self.capacity == #[trigger] pow2(k);
        lemma_pow2_pos(k);
    }

    /// Retiring a packet that the doorbell has let through keeps the
    /// invariant.
    pub proof fn lemma_retire_wf(self)
        requires
            self.wf(),
            self.ready(),
        ensures
            self.retire().wf(),
            self.retire().capacity == self.capacity,
    {
        let k = choose|k: nat| k < 64 && self.capacity == #[trigger] pow2(k);
        lemma_pow2_pos(k);
    }
}

/// Masking an index with `capacity - 1` gives the index modulo a capacity
/// that is a power of two.
pub proof fn lemma_mask_is_mod(index: u64, capacity: u64)
    requires
        spec_is_power_of_two(capacity as nat),
    ensures
        capacity > 0,
        index & ((capacity - 1) as u64) == index % capacity,
{
    let k = choose|k: nat| k < 64 && capacity as nat == #[trigger] pow2(k);
    lemma_pow2_pos(k);
    lemma_u64_low_bits_mask_is_mod(index, k);
    assert(low_bits_mask(k) == capacity - 1);
}

/// A number with a single bit set is a power of two.
proof fn lemma_single_bit_induct(size: u64)
    requires
        size != 0,
        size & ((size - 1) as u64) == 0,
    ensures
        spec_is_power_of_two(size as nat),
    decreases size,
{
    lemma2_to64();
    lemma2_to64_rest();
    if size == 1 {
        assert(size as nat == pow2(0));
    } else {
        let half: u64 = size / 2;
        assert(size % 2 == 0 && half != 0 && half & ((half - 1) as u64) == 0) by (bit_vector)
            requires
                size != 0,
                size != 1,
                size & ((size - 1) as u64) == 0,
                half == size / 2,
        ;
        lemma_single_bit_induct(half);
        let k = choose|k: nat| k < 64 && half as nat == #[trigger] pow2(k);
        vstd::arithmetic::power2::lemma_pow2_unfold(k + 1);
        assert(size as nat == pow2(k + 1));
        if k + 1 >= 64 {
            assert(pow2(64) == 0x1_0000_0000_0000_0000);
            assert(false);
        }
    }
}

/// The powers of two up to 2^63 are the numbers with a single bit set.
pub proof fn lemma_single_bit_is_power_of_two(size: u64)
    ensures
        spec_is_power_of_two(size as nat) <==> size != 0 && size & ((size - 1) as u64) == 0,
{
    if size != 0 && size & ((size - 1) as u64) == 0 {
        lemma_single_bit_induct(size);
    }
    if spec_is_power_of_two(size as nat) {
        let k = choose|k: nat| k < 64 && size as nat == #[trigger] pow2(k);
        lemma_pow2_pos(k);
        lemma_u64_low_bits_mask_is_mod(size, k);
        assert(low_bits_mask(k) == size - 1);
        assert(size % size == 0);
    }
}

/// The ring of one queue with its indices, its doorbell and the parameters
/// it was created with.
#[derive(Debug)]
pub struct RawQueue {
    slots: Vec<Packet>,
    write_index: u64,
    read_index: u64,
    doorbell: Signal,
    queue_type: QueueType,
    features: u32,
    private_segment_size: u32,
    group_segment_size: u32,
}

impl View for RawQueue {
    type V = RingModel;

    closed spec fn view(&self) -> RingModel {
        RingModel {
            capacity: self.slots@.len(),
            write_index: self.write_index as nat,
            read_index: self.read_index as nat,
            doorbell: self.doorbell@ as int,
            slots: self.slots@,
        }
    }
}

impl RawQueue {
    /// The invariant of a queue: that of its ring, with indices that fit
    /// the machine.
    pub open spec fn wf(&self) -> bool {
        self@.wf() && self@.indices_fit()
    }

    pub closed spec fn spec_queue_type(&self) -> QueueType {
        self.queue_type
    }

    pub closed spec fn spec_features(&self) -> u32 {
        self.features
    }

    pub closed spec fn spec_private_segment_size(&self) -> u32 {
        self.private_segment_size
    }

    pub closed spec fn spec_group_segment_size(&self) -> u32 {
        self.group_segment_size
    }

    /// Whether two queues were created with the same parameters.
    pub open spec fn same_parameters(&self, other: &RawQueue) -> bool {
        &&& self.spec_queue_type() == other.spec_queue_type()
        &&& self.spec_features() == other.spec_features()
        &&& self.spec_private_segment_size() == other.spec_private_segment_size()
        &&& self.spec_group_segment_size() == other.spec_group_segment_size()
    }

    /// Whether `size` slots can make a ring: a power of two that an index
    /// of this machine can address.
    pub open spec fn spec_valid_size(size: u64) -> bool {
        spec_is_power_of_two(size as nat) && size <= usize::MAX
    }

    /// Tells whether `size` is a power of two that an index of this
    /// machine can address.
    pub fn valid_size(size: u64) -> (valid: bool)
        ensures
            valid == Self::spec_valid_size(size),
    {
        proof {
            lemma_single_bit_is_power_of_two(size);
        }
        size != 0 && size & (size - 1) == 0 && size <= usize::MAX as u64
    }

    /// A queue of `size` vacant slots whose doorbell is `doorbell`, reset
    /// to say that nothing was published. `None` where `size` slots cannot
    /// make a ring.
    pub fn create(
        size: u64,
        queue_type: QueueType,
        features: u32,
        private_segment_size: u32,
        group_segment_size: u32,
        doorbell: Signal,
    ) -> (queue: Option<RawQueue>)
        ensures
            queue is Some <==> Self::spec_valid_size(size),
            queue matches Some(q) ==> {
                &&& q.wf()
                &&& q@ == RingModel::fresh(size as nat)
                &&& q.spec_queue_type() == queue_type
                &&& q.spec_features() == features
                &&& q.spec_private_segment_size() == private_segment_size
                &&& q.spec_group_segment_size() == group_segment_size
            },
    {
        if !Self::valid_size(size) {
            return None;
        }
        let mut slots: Vec<Packet> = Vec::new();
        let mut i: u64 = 0;
        while i < size
            invariant
                i <= size,
                slots@.len() == i,
                forall|j: int| 0 <= j < i ==> slots@[j] == Packet::spec_vacant(),
            decreases size - i,
        {
            slots.push(Packet::vacant());
            i = i + 1;
        }
        let mut doorbell = doorbell;
        doorbell.store(-1, MemoryOrder::Relaxed);
        let q = RawQueue {
            slots,
            write_index: 0,
            read_index: 0,
            doorbell,
            queue_type,
            features,
            private_segment_size,
            group_segment_size,
        };
        assert(q@.slots =~= RingModel::fresh(size as nat).slots);
        Some(q)
    }

    /// Whether one producer or several write to this queue.
    pub fn queue_type(&self) -> (queue_type: QueueType)
        ensures
            queue_type == self.spec_queue_type(),
    {
        self.queue_type
    }

    /// The feature bits that the queue was created with.
    pub fn features(&self) -> (features: u32)
        ensures
            features == self.spec_features(),
    {
        self.features
    }

    /// The private segment size that the queue was created with.
    pub fn private_segment_size(&self) -> (size: u32)
        ensures
            size == self.spec_private_segment_size(),
    {
        self.private_segment_size
    }

    /// The group segment size that the queue was created with.
    pub fn group_segment_size(&self) -> (size: u32)
        ensures
            size == self.spec_group_segment_size(),
    {
        self.group_segment_size
    }

    /// The number of slots.
    pub fn size(&self) -> (size: usize)
        ensures
            size == self@.capacity,
    {
        self.slots.len()
    }

    /// The doorbell signal.
    pub fn doorbell_ref(&self) -> (doorbell: &Signal)
        ensures
            doorbell@ == self@.doorbell,
    {
        &self.doorbell
    }

    /// The slot that packet `index` lives in.
    pub fn packet(&self, index: u64) -> (packet: &Packet)
        requires
            self.wf(),
        ensures
            *packet == self@.slots[self@.slot_of(index as nat)],
    {
        let i: usize = self.slot_index(index);
        &self.slots[i]
    }

    /// The position in the ring of packet `index`.
    fn slot_index(&self, index: u64) -> (i: usize)
        requires
            self.wf(),
        ensures
            i == self@.slot_of(index as nat),
            i < self.slots@.len(),
    {
        let capacity: u64 = self.slots.len() as u64;
        proof {
            lemma_mask_is_mod(index, capacity);
        }
        (index & (capacity - 1)) as usize
    }

    /// The read index.
    pub fn load_read_index_scacquire(&self) -> (index: u64)
        ensures
            index == self@.read_index,
    {
        self.read_index
    }

    /// The read index.
    pub fn load_read_index_relaxed(&self) -> (index: u64)
        ensures
            index == self@.read_index,
    {
        self.read_index
    }

    /// The write index.
    pub fn load_write_index_scacquire(&self) -> (index: u64)
        ensures
            index == self@.write_index,
    {
        self.write_index
    }

    /// The write index.
    pub fn load_write_index_relaxed(&self) -> (index: u64)
        ensures
            index == self@.write_index,
    {
        self.write_index
    }

    /// Moves the write index on by `val` and returns the index before, as
    /// an acquire and a release.
    pub fn add_write_index_scacq_screl(&mut self, val: u64) -> (index: u64)
        requires
            old(self).wf(),
            old(self)@.write_index + val <= i64::MAX,
        ensures
            final(self).wf(),
            index == old(self)@.write_index,
            final(self)@ == (RingModel {
                write_index: old(self)@.write_index + val as nat,
                ..old(self)@
            }),
            final(self).same_parameters(old(self)),
    {
        let index: u64 = self.write_index;
        self.write_index = index + val;
        index
    }

    /// Moves the write index on by `val` and returns the index before, as
    /// an acquire.
    pub fn add_write_index_scacquire(&mut self, val: u64) -> (index: u64)
        requires
            old(self).wf(),
            old(self)@.write_index + val <= i64::MAX,
        ensures
            final(self).wf(),
            index == old(self)@.write_index,
            final(self)@ == (RingModel {
                write_index: old(self)@.write_index + val as nat,
                ..old(self)@
            }),
            final(self).same_parameters(old(self)),
    {
        let index: u64 = self.write_index;
        self.write_index = index + val;
        index
    }

    /// Moves the write index on by `val` and returns the index before,
    /// without ordering.
    pub fn add_write_index_relaxed(&mut self, val: u64) -> (index: u64)
        requires
            old(self).wf(),
            old(self)@.write_index + val <= i64::MAX,
        ensures
            final(self).wf(),
            index == old(self)@.write_index,
            final(self)@ == (RingModel {
                write_index: old(self)@.write_index + val as nat,
                ..old(self)@
            }),
            final(self).same_parameters(old(self)),
    {
        let index: u64 = self.write_index;
        self.write_index = index + val;
        index
    }

    /// Moves the write index on by `val` and returns the index before, as
    /// a release.
    pub fn add_write_index_screlease(&mut self, val: u64) -> (index: u64)
        requires
            old(self).wf(),
            old(self)@.write_index + val <= i64::MAX,
        ensures
            final(self).wf(),
            index == old(self)@.write_index,
            final(self)@ == (RingModel {
                write_index: old(self)@.write_index + val as nat,
                ..old(self)@
            }),
            final(self).same_parameters(old(self)),
    {
        let index: u64 = self.write_index;
        self.write_index = index + val;
        index
    }

    /// Sets the read index to `val`, as a release. The read index does not
    /// go back, nor past the packet that the doorbell names.
    pub fn store_read_index_screlease(&mut self, val: u64)
        requires
            old(self).wf(),
            old(self)@.read_index <= val <= old(self)@.doorbell + 1,
        ensures
            final(self).wf(),
            final(self)@ == (RingModel { read_index: val as nat, ..old(self)@ }),
            final(self).same_parameters(old(self)),
    {
        self.read_index = val;
    }

    /// Takes the next write index for a packet: returns the index and tells
    /// whether a slot is free for it. The index is taken in either case.
    pub fn reserve(&mut self) -> (reserved: (u64, bool))
        requires
            old(self).wf(),
            old(self)@.write_index < i64::MAX,
        ensures
            reserved.0 == old(self)@.write_index,
            reserved.1 == !old(self)@.is_full(),
            final(self)@ == (RingModel {
                write_index: old(self)@.write_index + 1,
                ..old(self)@
            }),
            final(self).same_parameters(old(self)),
    {
        let packet_count: u64 = self.slots.len() as u64;
        let write_index: u64 = match self.queue_type {
            QueueType::Single => self.add_write_index_relaxed(1),
            QueueType::Multiple => self.add_write_index_screlease(1),
        };
        let read_index: u64 = self.load_read_index_scacquire();
        (write_index, write_index - read_index < packet_count)
    }

    /// Enqueues one packet: takes the next write index; where no slot is
    /// free, gives up with `Full` and leaves the slots and the doorbell
    /// alone; else stamps the slot invalid, writes the body, publishes the
    /// header with the setup field, and sets the doorbell to the packet's
    /// index.
    pub fn try_enqueue_packet(&mut self, header: u16, setup: u16, body: PacketBody) -> (result:
        Result<(), QueueError>)
        requires
            old(self).wf(),
            old(self)@.write_index < i64::MAX,
        ensures
            final(self).wf(),
            result == old(self)@.enqueue_result(),
            final(self)@ == old(self)@.enqueue(
                Packet { head: spec_head_word(header, setup), body },
            ),
            final(self).same_parameters(old(self)),
    {
        proof {
            self@.lemma_enqueue_wf(Packet { head: spec_head_word(header, setup), body });
        }
        let (write_index, free) = self.reserve();
        if !free {
            return Err(QueueError::Full);
        }
        let packet_index: usize = self.slot_index(write_index);
        let mut packet: Packet = self.slots[packet_index];
        let stamp: u16 = crate::header::header(
            PacketType::Invalid,
            &FenceScope::NoFence,
            &FenceScope::NoFence,
            true,
        );
        packet_store_rel(&mut packet, stamp, 0);
        self.slots[packet_index] = packet;
        packet.body = body;
        self.slots[packet_index] = packet;
        packet_store_rel(&mut packet, header, setup);
        self.slots[packet_index] = packet;
        self.doorbell.store(write_index as i64, MemoryOrder::Release);
        assert(self@.slots =~= old(self)@.enqueue(
            Packet { head: spec_head_word(header, setup), body },
        ).slots);
        Ok(())
    }

    /// Enqueues one packet whose body a writer fills in: takes the next
    /// write index; where no slot is free, gives up with `Full` without
    /// calling the writer; else stamps the slot invalid, has the writer
    /// make the new body from the body that the slot held, publishes the
    /// header with the setup field, and sets the doorbell to the packet's
    /// index.
    pub fn try_enqueue_with<F>(&mut self, header: u16, setup: u16, body_writer: F) -> (result:
        Result<(), QueueError>) where F: FnOnce(PacketBody) -> PacketBody
        requires
            old(self).wf(),
            old(self)@.write_index < i64::MAX,
            forall|stale: PacketBody| call_requires(body_writer, (stale,)),
        ensures
            final(self).wf(),
            result == old(self)@.enqueue_result(),
            final(self).same_parameters(old(self)),
            ({
                let slot = old(self)@.slot_of(old(self)@.write_index);
                let written = final(self)@.slots[slot].body;
                &&& final(self)@ == old(self)@.enqueue(
                    Packet { head: spec_head_word(header, setup), body: written },
                )
                &&& result is Ok ==> call_ensures(body_writer, (old(self)@.slots[slot].body,), written)
            }),
    {
        let (write_index, free) = self.reserve();
        if !free {
            return Err(QueueError::Full);
        }
        let packet_index: usize = self.slot_index(write_index);
        let mut packet: Packet = self.slots[packet_index];
        let stamp: u16 = crate::header::header(
            PacketType::Invalid,
            &FenceScope::NoFence,
            &FenceScope::NoFence,
            true,
        );
        packet_store_rel(&mut packet, stamp, 0);
        self.slots[packet_index] = packet;
        packet.body = body_writer(packet.body);
        self.slots[packet_index] = packet;
        packet_store_rel(&mut packet, header, setup);
        self.slots[packet_index] = packet;
        self.doorbell.store(write_index as i64, MemoryOrder::Release);
        proof {
            old(self)@.lemma_enqueue_wf(packet);
            assert(self@.slots =~= old(self)@.enqueue(packet).slots);
        }
        Ok(())
    }

    /// Whether the doorbell lets the consumer read the packet at the read
    /// index.
    pub fn ready(&self) -> (ready: bool)
        requires
            self.wf(),
        ensures
            ready == self@.ready(),
    {
        let read_index: u64 = self.load_read_index_scacquire();
        let observed = self.doorbell.wait_for(
            WaitCondition::GreaterEqual,
            read_index as i64,
            MemoryOrder::Acquire,
            None,
            WaitState::Blocked,
        );
        match observed {
            Some(value) => value >= read_index as i64,
            None => false,
        }
    }

    /// The slot at the read index.
    pub fn front(&self) -> (packet: &Packet)
        requires
            self.wf(),
        ensures
            *packet == self@.front(),
    {
        let i: usize = self.slot_index(self.read_index);
        &self.slots[i]
    }

    /// Hands the slot at the read index back to the producers: overwrites
    /// its header with the invalid header and moves the read index on.
    pub fn retire(&mut self)
        requires
            old(self).wf(),
            old(self)@.ready(),
        ensures
            final(self).wf(),
            final(self)@ == old(self)@.retire(),
            final(self).same_parameters(old(self)),
    {
        proof {
            self@.lemma_retire_wf();
        }
        let read_index: u64 = self.load_read_index_scacquire();
        let i: usize = self.slot_index(read_index);
        let mut packet: Packet = self.slots[i];
        invalidate(&mut packet);
        self.slots[i] = packet;
        self.store_read_index_screlease(read_index + 1);
    }
}

} // verus!
