//! What holds of every ring: how many packets it takes, that a slot reads
//! as invalid from the time it is retired to the time it is written again,
//! and that packets come out as they went in.

use vstd::prelude::*;
use vstd::arithmetic::power2::{lemma_pow2_pos, pow2};
use crate::header::PacketType;
use crate::packet::{spec_invalidated, DispatchPacket, Packet, PacketBody};
use crate::queue::QueueError;
use crate::ring::{RingModel, RingStep};

verus! {

/// Two indices less than a ring's capacity apart live in different slots.
pub proof fn lemma_distinct_slots(a: int, b: int, capacity: int)
    requires
        0 <= a < b,
        b - a < capacity,
    ensures
        a % capacity != b % capacity,
{
    vstd::arithmetic::div_mod::lemma_fundamental_div_mod(a, capacity);
    vstd::arithmetic::div_mod::lemma_fundamental_div_mod(b, capacity);
    if a % capacity == b % capacity {
        let k = b / capacity - a / capacity;
        assert(b - a == capacity * k) by (nonlinear_arith)
            requires
                a == capacity * (a / capacity) + a % capacity,
                b == capacity * (b / capacity) + b % capacity,
                a % capacity == b % capacity,
                k == b / capacity - a / capacity,
        ;
        assert(false) by (nonlinear_arith)
            requires
                b - a == capacity * k,
                0 < b - a < capacity,
        ;
    }
}

/// A ring that keeps its invariant has a slot for every index.
pub proof fn lemma_slot_in_range(ring: RingModel, index: nat)
    requires
        ring.wf(),
    ensures
        ring.capacity > 0,
        0 <= ring.slot_of(index) < ring.slots.len(),
{
    let k = choose|k: nat| k < 64 && ring.capacity == #[trigger] pow2(k);
    lemma_pow2_pos(k);
}

/// Retiring `n` packets that the doorbell has let through keeps the
/// invariant, and leaves alone every packet that the doorbell has let
/// through behind them.
pub proof fn lemma_retire_n_keeps(ring: RingModel, n: nat, index: nat)
    requires
        ring.wf(),
        ring.read_index + n <= ring.doorbell + 1,
    ensures
        ring.retire_n(n).wf(),
        ring.retire_n(n).read_index == ring.read_index + n,
        ring.retire_n(n).write_index == ring.write_index,
        ring.retire_n(n).doorbell == ring.doorbell,
        ring.retire_n(n).capacity == ring.capacity,
        ring.read_index + n <= index <= ring.doorbell ==> ring.retire_n(n).slots[ring.slot_of(index)]
            == ring.slots[ring.slot_of(index)],
    decreases n,
{
    if n > 0 {
        let before = ring.retire_n((n - 1) as nat);
        lemma_retire_n_keeps(ring, (n - 1) as nat, index);
        before.lemma_retire_wf();
        lemma_slot_in_range(before, before.read_index);
        lemma_slot_in_range(before, index);
        if ring.read_index + n <= index <= ring.doorbell {
            lemma_distinct_slots(before.read_index as int, index as int, ring.capacity as int);
        }
    }
}

/// Packets that find a free slot each are all accepted: every one is
/// written to the slot of its index, the doorbell names the last of them,
/// and what the doorbell had let through before stays where it was.
pub proof fn lemma_enqueue_all(ring: RingModel, packets: Seq<Packet>, index: nat)
    requires
        ring.wf(),
        ring.occupancy() + packets.len() <= ring.capacity,
    ensures
        ring.enqueue_all(packets).wf(),
        ring.enqueue_all(packets).capacity == ring.capacity,
        ring.enqueue_all(packets).read_index == ring.read_index,
        ring.enqueue_all(packets).write_index == ring.write_index + packets.len(),
        ring.enqueue_all(packets).doorbell == if packets.len() > 0 {
            ring.write_index + packets.len() - 1
        } else {
            ring.doorbell
        },
        ring.write_index <= index < ring.write_index + packets.len() ==> ring.enqueue_all(
            packets,
        ).slots[ring.slot_of(index)] == packets[index - ring.write_index],
        ring.read_index <= index < ring.write_index ==> ring.enqueue_all(packets).slots[ring.slot_of(
            index,
        )] == ring.slots[ring.slot_of(index)],
    decreases packets.len(),
{
    if packets.len() > 0 {
        let before = ring.enqueue_all(packets.drop_last());
        lemma_enqueue_all(ring, packets.drop_last(), index);
        before.lemma_enqueue_wf(packets.last());
        lemma_slot_in_range(before, before.write_index);
        lemma_slot_in_range(before, index);
        if ring.read_index <= index < before.write_index {
            lemma_distinct_slots(index as int, before.write_index as int, ring.capacity as int);
        }
    }
}

/// A ring takes as many packets as it has slots, and no more: from a ring
/// with `capacity - packets.len()` write indices in use, each of `packets`
/// is accepted, and the attempt after them comes back with `Full`.
pub proof fn lemma_fills_at_capacity(ring: RingModel, packets: Seq<Packet>)
    requires
        ring.wf(),
        ring.occupancy() + packets.len() == ring.capacity,
    ensures
        forall|k: int|
            0 <= k < packets.len() ==> (#[trigger] ring.enqueue_all(packets.take(k))).enqueue_result()
                == Ok::<(), QueueError>(()),
        ring.enqueue_all(packets).enqueue_result() == Err::<(), QueueError>(QueueError::Full),
{
    lemma_enqueue_all(ring, packets, 0);
    assert forall|k: int| 0 <= k < packets.len() implies (#[trigger] ring.enqueue_all(
        packets.take(k),
    )).enqueue_result() == Ok::<(), QueueError>(()) by {
        lemma_enqueue_all(ring, packets.take(k), 0);
    }
}

/// A fresh ring of a power-of-two capacity accepts `capacity` packets and
/// refuses the next.
pub proof fn lemma_fresh_fills_at_capacity(capacity: nat, packets: Seq<Packet>)
    requires
        crate::ring::spec_is_power_of_two(capacity),
        packets.len() == capacity,
    ensures
        RingModel::fresh(capacity).wf(),
        forall|k: int|
            0 <= k < packets.len() ==> (#[trigger] RingModel::fresh(capacity).enqueue_all(
                packets.take(k),
            )).enqueue_result() == Ok::<(), QueueError>(()),
        RingModel::fresh(capacity).enqueue_all(packets).enqueue_result() == Err::<(), QueueError>(
            QueueError::Full,
        ),
{
    lemma_fills_at_capacity(RingModel::fresh(capacity), packets);
}

/// The doorbell never goes back: an attempt to enqueue that is accepted
/// sets it to the packet's index, which is above every index that it held
/// before, and nothing else sets it.
pub proof fn lemma_doorbell_increases(ring: RingModel, packet: Packet)
    requires
        ring.wf(),
    ensures
        ring.is_full() ==> ring.enqueue(packet).doorbell == ring.doorbell,
        !ring.is_full() ==> ring.enqueue(packet).doorbell == ring.write_index
            && ring.enqueue(packet).doorbell > ring.doorbell,
        ring.retire().doorbell == ring.doorbell,
{
}

/// An attempt to enqueue that is refused takes a write index and changes
/// nothing else.
pub proof fn lemma_refused_changes_nothing_else(ring: RingModel, packet: Packet)
    requires
        ring.is_full(),
    ensures
        ring.enqueue(packet) == (RingModel { write_index: ring.write_index + 1, ..ring }),
        ring.enqueue(packet).slots == ring.slots,
        ring.enqueue(packet).read_index == ring.read_index,
        ring.enqueue(packet).doorbell == ring.doorbell,
{
}

/// Whether as many write indices were given up behind the doorbell as the
/// ring has slots.
pub open spec fn spec_is_wedged(ring: RingModel) -> bool {
    ring.write_index - (ring.doorbell + 1) >= ring.capacity
}

/// Write indices that are given up are not handed out again. Once as many
/// of them lie behind the doorbell as the ring has slots, every further
/// attempt to enqueue is refused, whatever the consumer retires.
pub proof fn lemma_given_up_indices_wedge(ring: RingModel, steps: Seq<RingStep>)
    requires
        ring.wf(),
        spec_is_wedged(ring),
    ensures
        ring.run(steps).wf(),
        spec_is_wedged(ring.run(steps)),
        ring.run(steps).is_full(),
        ring.run(steps).doorbell == ring.doorbell,
        ring.run(steps).capacity == ring.capacity,
        ring.run(steps).write_index <= ring.write_index + steps.len(),
    decreases steps.len(),
{
    if steps.len() > 0 {
        let before = ring.run(steps.drop_last());
        lemma_given_up_indices_wedge(ring, steps.drop_last());
        match steps.last() {
            RingStep::Enqueue(packet) => {
                before.lemma_enqueue_wf(packet);
            },
            RingStep::Retire => {
                if before.ready() {
                    before.lemma_retire_wf();
                }
            },
        }
    }
}

/// The slot of a packet that was retired reads as invalid.
pub proof fn lemma_retired_slot_is_invalid(ring: RingModel)
    requires
        ring.wf(),
        ring.ready(),
    ensures
        ring.retire().slots[ring.slot_of(ring.read_index)].spec_is_invalid(),
{
    lemma_slot_in_range(ring, ring.read_index);
    lemma_invalidated_is_invalid(ring.front());
}

/// A slot whose header was overwritten with the invalid header reads as
/// invalid.
pub proof fn lemma_invalidated_is_invalid(packet: Packet)
    ensures
        spec_invalidated(packet).spec_is_invalid(),
        spec_invalidated(packet).body == packet.body,
        spec_invalidated(packet).spec_setup() == packet.spec_setup(),
{
}

/// A slot that reads as invalid does so until a producer publishes into
/// it: retiring keeps it invalid, and so does every attempt to enqueue but
/// the one that is accepted into this very slot.
pub proof fn lemma_invalid_until_published(ring: RingModel, slot: int, packet: Packet)
    requires
        ring.wf(),
        0 <= slot < ring.capacity,
        ring.slots[slot].spec_is_invalid(),
    ensures
        ring.ready() ==> ring.retire().slots[slot].spec_is_invalid(),
        ring.is_full() || ring.slot_of(ring.write_index) != slot ==> ring.enqueue(packet).slots[slot]
            == ring.slots[slot],
{
    lemma_slot_in_range(ring, ring.read_index);
    lemma_slot_in_range(ring, ring.write_index);
    lemma_invalidated_is_invalid(ring.front());
}

/// Packets come out as they went in: after `packets` were accepted, in
/// this order, the consumer that has retired what was ahead of them finds
/// the `k`-th of them at the read index, let through by the doorbell and
/// as it was submitted.
pub proof fn lemma_fifo(ring: RingModel, packets: Seq<Packet>, k: int)
    requires
        ring.wf(),
        ring.occupancy() + packets.len() <= ring.capacity,
        0 <= k < packets.len(),
    ensures
        ({
            let at = ring.enqueue_all(packets).retire_n((ring.occupancy() + k) as nat);
            &&& at.wf()
            &&& at.ready()
            &&& at.read_index == ring.write_index + k
            &&& at.front() == packets[k]
        }),
{
    let filled = ring.enqueue_all(packets);
    let index = (ring.write_index + k) as nat;
    lemma_enqueue_all(ring, packets, index);
    lemma_retire_n_keeps(filled, (ring.occupancy() + k) as nat, index);
}

/// What holds after every run of steps from a ring whose indices are
/// level: the indices count the attempts and the packets shown, and every
/// accepted packet that was not shown yet sits in its slot, let through by
/// the doorbell.
pub open spec fn spec_run_invariant(ring: RingModel, steps: Seq<RingStep>) -> bool {
    let now = ring.run(steps);
    let attempts = ring.attempts(steps);
    let shown = ring.shown(steps);
    &&& now.wf()
    &&& now.capacity == ring.capacity
    &&& now.write_index == ring.write_index + attempts.len()
    &&& now.read_index == ring.read_index + shown.len()
    &&& shown.len() <= attempts.len()
    &&& forall|k: int|
        shown.len() <= k < attempts.len() && (#[trigger] attempts[k]) is Some ==> ring.write_index + k
            <= now.doorbell && now.slots[now.slot_of((ring.write_index + k) as nat)]
            == attempts[k]->0
    &&& forall|k: int|
        0 <= k < shown.len() && (#[trigger] attempts[k]) is Some ==> shown[k] == attempts[k]->0
}

/// Every run of steps from a ring whose indices are level keeps the run
/// invariant.
pub proof fn lemma_run_invariant(ring: RingModel, steps: Seq<RingStep>)
    requires
        ring.wf(),
        ring.read_index == ring.write_index,
    ensures
        spec_run_invariant(ring, steps),
    decreases steps.len(),
{
    if steps.len() > 0 {
        let earlier = steps.drop_last();
        lemma_run_invariant(ring, earlier);
        let before = ring.run(earlier);
        let now = ring.run(steps);
        let attempts_before = ring.attempts(earlier);
        let attempts = ring.attempts(steps);
        let shown_before = ring.shown(earlier);
        let shown = ring.shown(steps);
        lemma_attempts_len(ring, earlier);
        lemma_slot_in_range(before, before.write_index);
        lemma_slot_in_range(before, before.read_index);
        match steps.last() {
            RingStep::Enqueue(packet) => {
                before.lemma_enqueue_wf(packet);
                assert forall|k: int|
                    shown.len() <= k < attempts.len() && (#[trigger] attempts[k]) is Some implies ring.write_index
                    + k <= now.doorbell && now.slots[now.slot_of((ring.write_index + k) as nat)]
                    == attempts[k]->0 by {
                    if k < attempts_before.len() {
                        assert(attempts[k] == attempts_before[k]);
                        if !before.is_full() {
                            lemma_distinct_slots(
                                ring.write_index + k,
                                before.write_index as int,
                                ring.capacity as int,
                            );
                        }
                    }
                }
                assert forall|k: int|
                    0 <= k < shown.len() && (#[trigger] attempts[k]) is Some implies shown[k]
                    == attempts[k]->0 by {
                    assert(attempts[k] == attempts_before[k]);
                }
            },
            RingStep::Retire => {
                if before.ready() {
                    before.lemma_retire_wf();
                    assert forall|k: int|
                        shown.len() <= k < attempts.len() && (#[trigger] attempts[k]) is Some implies ring.write_index
                        + k <= now.doorbell && now.slots[now.slot_of((ring.write_index + k) as nat)]
                        == attempts[k]->0 by {
                        lemma_slot_in_range(before, (ring.write_index + k) as nat);
                        lemma_distinct_slots(
                            before.read_index as int,
                            ring.write_index + k,
                            ring.capacity as int,
                        );
                    }
                    assert forall|k: int|
                        0 <= k < shown.len() && (#[trigger] attempts[k]) is Some implies shown[k]
                        == attempts[k]->0 by {
                        if k < shown_before.len() {
                            assert(shown[k] == shown_before[k]);
                        }
                    }
                }
            },
        }
    }
}

/// There are no more attempts than steps.
pub proof fn lemma_attempts_len(ring: RingModel, steps: Seq<RingStep>)
    ensures
        ring.attempts(steps).len() <= steps.len(),
    decreases steps.len(),
{
    if steps.len() > 0 {
        lemma_attempts_len(ring, steps.drop_last());
    }
}

/// Packets come out as they went in, whatever producers and the consumer
/// do in between: in every run of steps from a ring whose indices are
/// level, the `k`-th slot that the consumer is shown is the one of the
/// `k`-th attempt to enqueue, and where that attempt was accepted, the
/// consumer is shown the packet as it was submitted.
pub proof fn lemma_fifo_of_every_run(ring: RingModel, steps: Seq<RingStep>, k: int)
    requires
        ring.wf(),
        ring.read_index == ring.write_index,
        0 <= k < ring.shown(steps).len(),
    ensures
        k < ring.attempts(steps).len(),
        ring.attempts(steps)[k] matches Some(packet) ==> ring.shown(steps)[k] == packet,
{
    lemma_run_invariant(ring, steps);
}

/// A packet that was accepted is what the consumer finds when its read
/// index has come to the packet's index.
pub proof fn lemma_round_trip(ring: RingModel, packet: Packet)
    requires
        ring.wf(),
        !ring.is_full(),
    ensures
        ({
            let at = ring.enqueue(packet).retire_n(ring.occupancy() as nat);
            &&& at.ready()
            &&& at.read_index == ring.write_index
            &&& at.front() == packet
        }),
{
    let packets = seq![packet];
    assert(packets.drop_last() =~= Seq::<Packet>::empty());
    assert(ring.enqueue_all(packets.drop_last()) == ring);
    assert(ring.enqueue_all(packets) == ring.enqueue(packet));
    lemma_fifo(ring, packets, 0);
}

/// A kernel launch that was accepted is shown to the consumer with the
/// dimensions, segment sizes, kernel object and argument address that it
/// was submitted with.
pub proof fn lemma_dispatch_round_trip(ring: RingModel, dispatch: DispatchPacket)
    requires
        ring.wf(),
        !ring.is_full(),
    ensures
        ({
            let shown = ring.enqueue(dispatch.spec_packet()).retire_n(
                ring.occupancy() as nat,
            ).front();
            &&& shown.spec_packet_type() == Some(PacketType::KernelDispatch)
            &&& shown.body matches PacketBody::KernelDispatch(body)
            &&& (body.workgroup_size_x, body.workgroup_size_y, body.workgroup_size_z)
                == dispatch.workgroup_size
            &&& (body.grid_size_x, body.grid_size_y, body.grid_size_z) == dispatch.grid_size
            &&& body.private_segment_size == dispatch.private_segment_size
            &&& body.group_segment_size == dispatch.group_segment_size
            &&& body.kernel_object == dispatch.kernel_object
            &&& body.kernarg_address == dispatch.kernel_args
        }),
{
    lemma_round_trip(ring, dispatch.spec_packet());
    crate::header::lemma_decode_header(
        PacketType::KernelDispatch,
        dispatch.scaquire_scope,
        dispatch.screlease_scope,
        dispatch.ordered,
    );
}

} // verus!
