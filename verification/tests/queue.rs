use hsa_rt::header::{header, FenceScope, PacketHeader, PacketType};
use hsa_rt::packet::{DispatchPacket, KernelDispatchBody, Packet, PacketBody};
use hsa_rt::queue::{
    Agent, CreateError, KernelSingleQueue, QueueError, QueueKind, QueueType, RingQueue,
};
use hsa_rt::ring::{RawQueue, SEGMENT_SIZE_AUTOMATIC};
use hsa_rt::signal::{MemoryOrder, Signal, SignalPool, SignalRef};
use hsa_rt::soft::{AgentPacket, ApiContext, ProcessLoopResult, ProcessOutcome, Region, SoftQueue};

fn dispatch(grid: (u32, u32, u32), workgroup: (u16, u16, u16)) -> DispatchPacket {
    DispatchPacket {
        workgroup_size: workgroup,
        grid_size: grid,
        private_segment_size: 16,
        group_segment_size: 32,
        ordered: true,
        scaquire_scope: FenceScope::System,
        screlease_scope: FenceScope::System,
        kernel_object: 0xdead_beef,
        kernel_args: 0x1000,
        completion_signal: None,
    }
}

fn soft_queue(size: usize, queue_type: QueueType) -> SoftQueue {
    ApiContext::new()
        .new_soft(Region { handle: 1 }, size, queue_type, true, true, Signal::new(0))
        .expect("a power of two")
}

fn kernel_queue(size: u32) -> KernelSingleQueue {
    Agent::new(7).new_kernel_queue(size, None, None).expect("a power of two")
}

fn drain_one(queue: &mut SoftQueue, signals: &mut SignalPool) -> ProcessOutcome<Packet> {
    queue.process(signals, |shown: AgentPacket<u8>| ProcessLoopResult::Exit(*shown.packet()))
}

#[test]
fn capacity_four_scenario() {
    let mut queue = soft_queue(4, QueueType::Single);
    let mut signals = SignalPool::new();
    for _ in 0..4 {
        assert_eq!(queue.try_enqueue_kernel_dispatch(dispatch((256, 1, 1), (8, 1, 1))), Ok(()));
    }
    assert_eq!(
        queue.try_enqueue_kernel_dispatch(dispatch((256, 1, 1), (8, 1, 1))),
        Err(QueueError::Full)
    );
    assert_eq!(queue.raw().load_write_index_relaxed(), 5);
    assert_eq!(queue.doorbell_ref().load(MemoryOrder::Acquire), 3);
    assert!(matches!(drain_one(&mut queue, &mut signals), ProcessOutcome::Exited(_)));
    assert_eq!(queue.raw().load_read_index_scacquire(), 1);
    // The refused attempt kept its write index, so the next one is handed
    // index 5, which is four ahead of the read index.
    assert_eq!(
        queue.try_enqueue_kernel_dispatch(dispatch((256, 1, 1), (8, 1, 1))),
        Err(QueueError::Full)
    );
    for _ in 0..3 {
        assert!(matches!(drain_one(&mut queue, &mut signals), ProcessOutcome::Exited(_)));
    }
    assert!(matches!(drain_one(&mut queue, &mut signals), ProcessOutcome::WaitingForDoorbell));
    assert_eq!(queue.try_enqueue_kernel_dispatch(dispatch((256, 1, 1), (8, 1, 1))), Ok(()));
    assert_eq!(queue.doorbell_ref().load(MemoryOrder::Acquire), 6);
}

#[test]
fn accepts_capacity_packets_then_full() {
    for shift in 0..6u32 {
        let capacity = 1u32 << shift;
        let mut queue = kernel_queue(capacity);
        for _ in 0..capacity {
            assert_eq!(queue.try_enqueue_kernel_dispatch(dispatch((2, 2, 2), (1, 1, 1))), Ok(()));
        }
        assert_eq!(
            queue.try_enqueue_kernel_dispatch(dispatch((2, 2, 2), (1, 1, 1))),
            Err(QueueError::Full)
        );
    }
}

#[test]
fn zero_grid_dimension_is_refused_without_a_write_index() {
    let mut queue = kernel_queue(4);
    assert_eq!(queue.try_enqueue_kernel_dispatch(dispatch((256, 1, 1), (8, 1, 1))), Ok(()));
    let write_index = queue.raw_queue().raw().load_write_index_relaxed();
    let read_index = queue.raw_queue().raw().load_read_index_relaxed();
    assert_eq!(
        queue.try_enqueue_kernel_dispatch(dispatch((0, 1, 1), (8, 1, 1))),
        Err(QueueError::GridDimSize)
    );
    assert_eq!(queue.raw_queue().raw().load_write_index_relaxed(), write_index);
    assert_eq!(queue.raw_queue().raw().load_read_index_relaxed(), read_index);
    assert_eq!(
        queue.try_enqueue_kernel_dispatch(dispatch((1, 0, 1), (8, 1, 1))),
        Err(QueueError::GridDimSize)
    );
    assert_eq!(
        queue.try_enqueue_kernel_dispatch(dispatch((1, 1, 0), (8, 1, 1))),
        Err(QueueError::GridDimSize)
    );
    assert_eq!(queue.raw_queue().raw().load_write_index_relaxed(), write_index);
}

#[test]
fn zero_workgroup_dimension_is_refused_first() {
    let mut queue = kernel_queue(4);
    assert_eq!(
        queue.try_enqueue_kernel_dispatch(dispatch((0, 1, 1), (0, 1, 1))),
        Err(QueueError::WorkgroupDimSize)
    );
    assert_eq!(
        queue.try_enqueue_kernel_dispatch(dispatch((1, 1, 1), (1, 0, 1))),
        Err(QueueError::WorkgroupDimSize)
    );
    assert_eq!(
        queue.try_enqueue_kernel_dispatch(dispatch((1, 1, 1), (1, 1, 0))),
        Err(QueueError::WorkgroupDimSize)
    );
    assert_eq!(queue.raw_queue().raw().load_write_index_relaxed(), 0);
    assert_eq!(queue.doorbell_ref().load(MemoryOrder::Acquire), -1);
}

#[test]
fn refused_launch_on_a_full_queue_reports_the_dimension() {
    let mut queue = kernel_queue(1);
    assert_eq!(queue.try_enqueue_kernel_dispatch(dispatch((1, 1, 1), (1, 1, 1))), Ok(()));
    assert_eq!(
        queue.try_enqueue_kernel_dispatch(dispatch((0, 1, 1), (1, 1, 1))),
        Err(QueueError::GridDimSize)
    );
    assert_eq!(queue.raw_queue().raw().load_write_index_relaxed(), 1);
}

#[test]
fn round_trip_of_a_kernel_dispatch() {
    let mut queue = soft_queue(8, QueueType::Multiple);
    let mut signals = SignalPool::new();
    let completion = signals.create(1);
    let mut submitted = dispatch((64, 32, 2), (8, 4, 2));
    submitted.completion_signal = Some(completion);
    submitted.ordered = false;
    submitted.scaquire_scope = FenceScope::Agent;
    submitted.screlease_scope = FenceScope::NoFence;
    assert_eq!(queue.try_enqueue_kernel_dispatch(submitted), Ok(()));
    let outcome = drain_one(&mut queue, &mut signals);
    let shown = match outcome {
        ProcessOutcome::Exited(shown) => shown,
        ProcessOutcome::WaitingForDoorbell => panic!("a packet was published"),
    };
    assert_eq!(
        shown.body,
        PacketBody::KernelDispatch(KernelDispatchBody {
            workgroup_size_x: 8,
            workgroup_size_y: 4,
            workgroup_size_z: 2,
            grid_size_x: 64,
            grid_size_y: 32,
            grid_size_z: 2,
            private_segment_size: 16,
            group_segment_size: 32,
            kernel_object: 0xdead_beef,
            kernarg_address: 0x1000,
            completion_signal: completion,
        })
    );
    assert_eq!(
        shown.decode_header(),
        Some(PacketHeader {
            ty: PacketType::KernelDispatch,
            acquire: FenceScope::Agent,
            release: FenceScope::NoFence,
            ordered: false,
        })
    );
    assert_eq!(shown.setup(), 3);
    assert_eq!(signals.load(completion, MemoryOrder::Acquire), Some(0));
}

#[test]
fn dimensions_in_the_setup_field() {
    let cases: [((u32, u32, u32), u16); 6] = [
        ((1, 1, 1), 0),
        ((256, 1, 1), 1),
        ((256, 2, 1), 2),
        ((1, 2, 1), 2),
        ((1, 1, 2), 3),
        ((4, 4, 4), 3),
    ];
    for (grid, dims) in cases {
        let mut queue = soft_queue(2, QueueType::Single);
        let mut signals = SignalPool::new();
        assert_eq!(queue.try_enqueue_kernel_dispatch(dispatch(grid, (1, 1, 1))), Ok(()));
        match drain_one(&mut queue, &mut signals) {
            ProcessOutcome::Exited(shown) => assert_eq!(shown.setup(), dims),
            ProcessOutcome::WaitingForDoorbell => panic!("a packet was published"),
        }
    }
}

#[test]
fn retired_slot_reads_as_invalid_until_republished() {
    let mut queue = soft_queue(2, QueueType::Single);
    let mut signals = SignalPool::new();
    assert!(queue.raw().packet(0).is_invalid());
    assert_eq!(queue.try_enqueue_kernel_dispatch(dispatch((4, 1, 1), (2, 1, 1))), Ok(()));
    assert_eq!(queue.raw().packet(0).packet_type(), Some(PacketType::KernelDispatch));
    assert!(matches!(drain_one(&mut queue, &mut signals), ProcessOutcome::Exited(_)));
    assert!(queue.raw().packet(0).is_invalid());
    assert_eq!(
        queue.raw().packet(0).header(),
        header(PacketType::Invalid, &FenceScope::System, &FenceScope::System, false)
    );
    // The body and the setup field stay behind.
    assert_eq!(queue.raw().packet(0).setup(), 1);
    assert!(matches!(queue.raw().packet(0).body, PacketBody::KernelDispatch(_)));
    assert_eq!(queue.try_enqueue_kernel_dispatch(dispatch((4, 1, 1), (2, 1, 1))), Ok(()));
    assert!(queue.raw().packet(0).is_invalid());
    assert!(!queue.raw().packet(1).is_invalid());
    assert!(matches!(drain_one(&mut queue, &mut signals), ProcessOutcome::Exited(_)));
    assert_eq!(queue.try_enqueue_kernel_dispatch(dispatch((4, 1, 1), (2, 1, 1))), Ok(()));
    assert_eq!(queue.raw().packet(2).packet_type(), Some(PacketType::KernelDispatch));
    assert_eq!(queue.raw().packet(0).packet_type(), Some(PacketType::KernelDispatch));
}

#[test]
fn handler_sees_packets_in_submission_order() {
    let mut queue = soft_queue(4, QueueType::Single);
    let mut signals = SignalPool::new();
    let mut seen: Vec<u64> = Vec::new();
    let mut next: u64 = 0;
    for round in 0..5 {
        let batch = 1 + round % 4;
        for _ in 0..batch {
            let mut launch = dispatch((2, 1, 1), (1, 1, 1));
            launch.kernel_object = next;
            next += 1;
            assert_eq!(queue.try_enqueue_kernel_dispatch(launch), Ok(()));
        }
        let outcome: ProcessOutcome<()> = queue.process(&mut signals, |shown: AgentPacket<u8>| {
            seen.push(shown.kernel_dispatch().expect("a kernel dispatch").kernel_object);
            ProcessLoopResult::Continue
        });
        assert!(matches!(outcome, ProcessOutcome::WaitingForDoorbell));
    }
    let expected: Vec<u64> = (0..next).collect();
    assert_eq!(seen, expected);
}

#[test]
fn exit_ends_the_loop_after_the_packet_is_retired() {
    let mut queue = soft_queue(4, QueueType::Single);
    let mut signals = SignalPool::new();
    let done = signals.create(3);
    for object in 0..3u64 {
        let mut launch = dispatch((2, 1, 1), (1, 1, 1));
        launch.kernel_object = object;
        launch.completion_signal = Some(done);
        assert_eq!(queue.try_enqueue_kernel_dispatch(launch), Ok(()));
    }
    let outcome = queue.process(&mut signals, |shown: AgentPacket<u8>| {
        let object = shown.kernel_dispatch().expect("a kernel dispatch").kernel_object;
        if object == 1 {
            ProcessLoopResult::Exit(object)
        } else {
            ProcessLoopResult::Continue
        }
    });
    assert!(matches!(outcome, ProcessOutcome::Exited(1)));
    assert_eq!(queue.raw().load_read_index_scacquire(), 2);
    assert_eq!(signals.load(done, MemoryOrder::Acquire), Some(1));
    assert!(queue.raw().packet(1).is_invalid());
    assert!(!queue.raw().packet(2).is_invalid());
}

#[test]
fn empty_queue_waits_for_the_doorbell() {
    let mut queue = soft_queue(4, QueueType::Single);
    let mut signals = SignalPool::new();
    let mut calls = 0;
    let outcome: ProcessOutcome<()> = queue.process(&mut signals, |_shown: AgentPacket<u8>| {
        calls += 1;
        ProcessLoopResult::Continue
    });
    assert!(matches!(outcome, ProcessOutcome::WaitingForDoorbell));
    assert_eq!(calls, 0);
    assert_eq!(queue.raw().load_read_index_scacquire(), 0);
}

#[test]
fn unknown_completion_signal_is_left_alone() {
    let mut queue = soft_queue(2, QueueType::Single);
    let mut signals = SignalPool::new();
    let known = signals.create(5);
    let mut launch = dispatch((2, 1, 1), (1, 1, 1));
    launch.completion_signal = Some(SignalRef { handle: 9 });
    assert_eq!(queue.try_enqueue_kernel_dispatch(launch), Ok(()));
    assert!(matches!(drain_one(&mut queue, &mut signals), ProcessOutcome::Exited(_)));
    assert_eq!(signals.load(known, MemoryOrder::Acquire), Some(5));
    assert_eq!(signals.len(), 1);
}

#[test]
fn queue_sizes_that_are_no_power_of_two_are_refused() {
    let agent = Agent::new(1);
    for size in [0u32, 3, 5, 6, 7, 12, 100, u32::MAX] {
        assert!(matches!(
            agent.new_kernel_queue(size, None, None),
            Err(CreateError::InvalidArgument)
        ));
        assert!(matches!(
            agent.new_kernel_multi_queue(size, None, None),
            Err(CreateError::InvalidArgument)
        ));
        assert!(matches!(
            agent.new_queue(size, None::<fn()>, None, None),
            Err(CreateError::InvalidArgument)
        ));
        assert!(matches!(
            agent.new_multi_queue(size, None::<fn()>, None, None),
            Err(CreateError::InvalidArgument)
        ));
        assert!(ApiContext::new()
            .new_soft(
                Region { handle: 0 },
                size as usize,
                QueueType::Single,
                true,
                false,
                Signal::new(0)
            )
            .is_err());
    }
    for size in [1u64, 2, 4, 1024, 1 << 31] {
        assert!(RawQueue::valid_size(size));
    }
    assert!(!RawQueue::valid_size(0));
    assert!(!RawQueue::valid_size(3));
    assert!(!RawQueue::valid_size((1 << 40) + 1));
}

#[test]
fn creation_parameters() {
    let agent = Agent::new(42);
    assert_eq!(agent.handle(), 42);
    let queue = agent.new_kernel_queue(16, Some(128), None).unwrap();
    let raw = queue.raw_queue().raw();
    assert_eq!(raw.size(), 16);
    assert_eq!(raw.queue_type(), QueueType::Single);
    assert_eq!(raw.private_segment_size(), 128);
    assert_eq!(raw.group_segment_size(), SEGMENT_SIZE_AUTOMATIC);
    assert_eq!(raw.group_segment_size(), u32::MAX);
    assert_eq!(raw.features(), 1);
    assert_eq!(raw.load_write_index_scacquire(), 0);
    assert_eq!(raw.load_read_index_scacquire(), 0);
    assert!(!raw.ready());

    let queue = agent.new_kernel_multi_queue(2, None, Some(64)).unwrap();
    assert_eq!(queue.raw_queue().raw().queue_type(), QueueType::Multiple);
    assert_eq!(queue.raw_queue().raw().group_segment_size(), 64);

    let queue = agent.new_queue(8, Some(|| ()), None, None).unwrap();
    assert!(queue.has_callback());
    assert_eq!(queue.raw_queue().raw().features(), 3);
    assert_eq!(queue.raw_queue().raw().queue_type(), QueueType::Single);
    let queue = agent.new_multi_queue(8, None::<fn()>, None, None).unwrap();
    assert!(!queue.has_callback());
    assert_eq!(queue.raw_queue().raw().queue_type(), QueueType::Multiple);

    let soft = soft_queue(4, QueueType::Multiple);
    assert_eq!(soft.raw().features(), 3);
    assert_eq!(soft.raw().queue_type(), QueueType::Multiple);
    // The doorbell that was handed over with the value 0 is reset.
    assert_eq!(soft.doorbell_ref().load(MemoryOrder::Relaxed), -1);
    let soft = ApiContext::new()
        .new_soft(Region { handle: 0 }, 4, QueueType::Single, false, true, Signal::new(7))
        .unwrap();
    assert_eq!(soft.raw().features(), 2);
    let soft = ApiContext::new()
        .new_soft(Region { handle: 0 }, 4, QueueType::Single, false, false, Signal::new(7))
        .unwrap();
    assert_eq!(soft.raw().features(), 0);
}

#[test]
fn raw_packet_enqueue_publishes_header_and_setup_in_one_word() {
    let mut queue = soft_queue(2, QueueType::Single);
    let published = header(PacketType::AgentDispatch, &FenceScope::NoFence, &FenceScope::Agent, true);
    let body = PacketBody::AgentDispatch(hsa_rt::packet::AgentDispatchBody {
        return_address: 0x2000,
        arg: [1, 2, 3, 4],
        completion_signal: SignalRef::default(),
    });
    assert_eq!(queue.try_enqueue_packet(published, 0x8001, body), Ok(()));
    let slot = *queue.raw().packet(0);
    assert_eq!(slot.head, (published as u32) | (0x8001u32 << 16));
    let mut signals = SignalPool::new();
    let outcome = queue.process(&mut signals, |shown: AgentPacket<u8>| {
        assert_eq!(shown.args(), &[1u64, 2, 3, 4][..]);
        assert_eq!(shown.return_address(), Some(0x2000));
        assert_eq!(shown.agent_function(), 0x8001);
        assert!(shown.kernel_dispatch().is_none());
        ProcessLoopResult::Exit(shown.packet().packet_type())
    });
    assert!(matches!(outcome, ProcessOutcome::Exited(Some(PacketType::AgentDispatch))));
    // Retiring keeps the setup field, which holds the agent's function.
    assert_eq!(queue.raw().packet(0).setup(), 0x8001);
}

#[test]
fn index_operations_of_the_ring() {
    let mut queue = kernel_queue(4);
    let raw = queue.raw_queue_mut().raw_mut();
    assert_eq!(raw.add_write_index_relaxed(2), 0);
    assert_eq!(raw.add_write_index_screlease(1), 2);
    assert_eq!(raw.add_write_index_scacquire(0), 3);
    assert_eq!(raw.add_write_index_scacq_screl(4), 3);
    assert_eq!(raw.load_write_index_relaxed(), 7);
    assert_eq!(raw.reserve(), (7, false));
    assert_eq!(raw.load_write_index_relaxed(), 8);
    raw.store_read_index_screlease(0);
    assert_eq!(raw.load_read_index_relaxed(), 0);
}

#[test]
fn body_writer_runs_only_when_a_slot_is_free() {
    let mut queue = soft_queue(2, QueueType::Single);
    let mut signals = SignalPool::new();
    let published = header(PacketType::AgentDispatch, &FenceScope::NoFence, &FenceScope::NoFence, false);
    let agent = |arg: u64| {
        PacketBody::AgentDispatch(hsa_rt::packet::AgentDispatchBody {
            return_address: 0,
            arg: [arg, 0, 0, 0],
            completion_signal: SignalRef::default(),
        })
    };
    let mut stale = Vec::new();
    for arg in [1, 2] {
        assert_eq!(
            queue.try_enqueue_with(published, 7, |body| {
                stale.push(body);
                agent(arg)
            }),
            Ok(())
        );
    }
    let mut called = false;
    assert_eq!(
        queue.try_enqueue_with(published, 8, |body| {
            called = true;
            body
        }),
        Err(QueueError::Full)
    );
    assert!(!called);
    assert_eq!(queue.raw().packet(0).body, agent(1));
    assert_eq!(queue.raw().packet(1).body, agent(2));
    let outcome: ProcessOutcome<()> =
        queue.process(&mut signals, |_shown: AgentPacket<u8>| ProcessLoopResult::Continue);
    assert!(matches!(outcome, ProcessOutcome::WaitingForDoorbell));
    assert_eq!(queue.raw().load_read_index_scacquire(), 2);
    // The refused attempt kept index 2, so this packet is given index 3.
    // The writer is handed what the slot held.
    assert_eq!(
        queue.try_enqueue_with(published, 9, |body| {
            stale.push(body);
            agent(3)
        }),
        Ok(())
    );
    assert_eq!(stale, vec![PacketBody::Vacant, PacketBody::Vacant, agent(2)]);
    assert_eq!(queue.raw().packet(3).body, agent(3));
    assert_eq!(queue.raw().packet(3).setup(), 9);
    // The consumer is shown the slot of the index that was given up, which
    // reads as invalid, and then the packet.
    let mut shown_types = Vec::new();
    let outcome: ProcessOutcome<()> = queue.process(&mut signals, |shown: AgentPacket<u8>| {
        shown_types.push(shown.packet().packet_type());
        ProcessLoopResult::Continue
    });
    assert!(matches!(outcome, ProcessOutcome::WaitingForDoorbell));
    assert_eq!(shown_types, vec![Some(PacketType::Invalid), Some(PacketType::AgentDispatch)]);
}

#[test]
fn as_many_refusals_as_slots_leave_no_index_to_accept() {
    let mut queue = soft_queue(2, QueueType::Single);
    let mut signals = SignalPool::new();
    for _ in 0..2 {
        assert_eq!(queue.try_enqueue_kernel_dispatch(dispatch((2, 1, 1), (1, 1, 1))), Ok(()));
    }
    for _ in 0..2 {
        assert_eq!(
            queue.try_enqueue_kernel_dispatch(dispatch((2, 1, 1), (1, 1, 1))),
            Err(QueueError::Full)
        );
    }
    let outcome: ProcessOutcome<()> =
        queue.process(&mut signals, |_shown: AgentPacket<u8>| ProcessLoopResult::Continue);
    assert!(matches!(outcome, ProcessOutcome::WaitingForDoorbell));
    assert_eq!(queue.raw().load_read_index_scacquire(), 2);
    assert_eq!(queue.raw().load_write_index_scacquire(), 4);
    for _ in 0..3 {
        assert_eq!(
            queue.try_enqueue_kernel_dispatch(dispatch((2, 1, 1), (1, 1, 1))),
            Err(QueueError::Full)
        );
    }
}

#[test]
fn boxed_queue_is_a_queue() {
    let mut queue = Box::new(kernel_queue(2));
    assert_eq!(queue.try_enqueue_kernel_dispatch(dispatch((2, 1, 1), (1, 1, 1))), Ok(()));
    assert_eq!(queue.doorbell_ref().load(MemoryOrder::Acquire), 0);
    assert_eq!(queue.raw_queue().raw().load_write_index_relaxed(), 1);
}
