use hsa_rt::header::{header, FenceScope, PacketType};
use hsa_rt::packet::{
    barrier_body, AgentDispatchBody, KernelDispatchBody, Packet, PacketBody,
};
use hsa_rt::signal::SignalRef;
use hsa_rt::worker::{WorkerAction, WorkerEvent, WorkerMessage, WorkerPhase, WorkerState};

#[test]
fn words_of_a_kernel_dispatch() {
    let published = header(PacketType::KernelDispatch, &FenceScope::System, &FenceScope::Agent, true);
    let slot = Packet {
        head: published as u32 | (2 << 16),
        body: PacketBody::KernelDispatch(KernelDispatchBody {
            workgroup_size_x: 0x0102,
            workgroup_size_y: 0x0304,
            workgroup_size_z: 0x0506,
            grid_size_x: 0x1112_1314,
            grid_size_y: 0x2122_2324,
            grid_size_z: 0x3132_3334,
            private_segment_size: 0x4142_4344,
            group_segment_size: 0x5152_5354,
            kernel_object: 0x6162_6364_6566_6768,
            kernarg_address: 0x7172_7374_7576_7778,
            completion_signal: SignalRef { handle: 0x8182_8384_8586_8788 },
        }),
    };
    let words = slot.to_words();
    assert_eq!(
        words,
        [
            0x0304_0102_0002_0000 | published as u64,
            0x1112_1314_0000_0506,
            0x3132_3334_2122_2324,
            0x5152_5354_4142_4344,
            0x6162_6364_6566_6768,
            0x7172_7374_7576_7778,
            0,
            0x8182_8384_8586_8788,
        ]
    );
    assert_eq!(Packet::from_words(&words), slot);
    // In memory, byte by byte.
    let bytes: Vec<u8> = words.iter().flat_map(|word| word.to_le_bytes()).collect();
    assert_eq!(&bytes[0..2], &published.to_le_bytes());
    assert_eq!(&bytes[2..4], &[2, 0]);
    assert_eq!(&bytes[4..10], &[0x02, 0x01, 0x04, 0x03, 0x06, 0x05]);
    assert_eq!(&bytes[10..12], &[0, 0]);
    assert_eq!(&bytes[12..16], &0x1112_1314u32.to_le_bytes());
    assert_eq!(&bytes[24..28], &0x4142_4344u32.to_le_bytes());
    assert_eq!(&bytes[56..64], &0x8182_8384_8586_8788u64.to_le_bytes());
}

#[test]
fn words_of_barriers_and_agent_dispatches() {
    let deps: Vec<SignalRef> = (10..13).map(|handle| SignalRef { handle }).collect();
    for ty in [PacketType::BarrierAnd, PacketType::BarrierOr] {
        let slot = Packet {
            head: header(ty, &FenceScope::NoFence, &FenceScope::NoFence, false) as u32,
            body: PacketBody::Barrier(barrier_body(&deps, Some(SignalRef { handle: 99 }))),
        };
        let words = slot.to_words();
        assert_eq!(words, [slot.head as u64, 10, 11, 12, 0, 0, 0, 99]);
        assert_eq!(Packet::from_words(&words), slot);
    }
    let slot = Packet {
        head: header(PacketType::AgentDispatch, &FenceScope::NoFence, &FenceScope::NoFence, false)
            as u32
            | (0x8000 << 16),
        body: PacketBody::AgentDispatch(AgentDispatchBody {
            return_address: 0xaaaa,
            arg: [1, 2, 3, u64::MAX],
            completion_signal: SignalRef::default(),
        }),
    };
    let words = slot.to_words();
    assert_eq!(words, [0x8000_0004, 0xaaaa, 1, 2, 3, u64::MAX, 0, 0]);
    assert_eq!(Packet::from_words(&words), slot);
}

#[test]
fn words_of_slots_without_a_packet() {
    let vacant = Packet::vacant();
    assert_eq!(vacant.to_words(), [1, 0, 0, 0, 0, 0, 0, 0]);
    assert_eq!(Packet::from_words(&[1, 0, 0, 0, 0, 0, 0, 0]), vacant);
    // Under an invalid header nothing is read as a body, and what is above
    // the first 32 bits of the first word is not part of the head.
    let stale = Packet::from_words(&[0xffff_0000_0000_1401, 5, 6, 7, 8, 9, 10, 11]);
    assert_eq!(stale, Packet { head: 0x1401, body: PacketBody::Vacant });
    let unknown = Packet::from_words(&[0x00ff, 5, 6, 7, 8, 9, 10, 11]);
    assert_eq!(unknown.body, PacketBody::Vacant);
}

fn received(message: WorkerMessage, context_alive: bool) -> WorkerEvent {
    WorkerEvent::Received { message, context_alive }
}

#[test]
fn worker_serves_messages() {
    let mut state = WorkerState::start();
    assert_eq!(state, WorkerState { phase: WorkerPhase::Serving, first_msg: true });
    assert_eq!(state.step(received(WorkerMessage::AddAccel, true)), WorkerAction::AddAccel);
    assert!(!state.first_msg);
    assert_eq!(state.step(received(WorkerMessage::StartHostQuery, true)), WorkerAction::Serve);
    assert_eq!(
        state.step(received(WorkerMessage::Codegen { cached: false }, true)),
        WorkerAction::Codegen { send_cached: false }
    );
    assert_eq!(
        state.step(received(WorkerMessage::Codegen { cached: true }, false)),
        WorkerAction::Codegen { send_cached: true }
    );
    assert_eq!(state, WorkerState { phase: WorkerPhase::Serving, first_msg: false });
    assert_eq!(state.step(WorkerEvent::Disconnected), WorkerAction::Exit);
}

#[test]
fn worker_outlives_timeouts_before_its_first_message() {
    let mut state = WorkerState::start();
    let timeout = WorkerEvent::Timeout { context_alive: false, accel_alive: false };
    assert_eq!(state.step(timeout), WorkerAction::Sleep);
    assert_eq!(state, WorkerState { phase: WorkerPhase::Idle, first_msg: true });
    assert_eq!(state.step(timeout), WorkerAction::Sleep);
    assert_eq!(state.step(received(WorkerMessage::AddAccel, true)), WorkerAction::AddAccel);
    assert_eq!(state, WorkerState { phase: WorkerPhase::Serving, first_msg: false });
}

#[test]
fn worker_ends_when_nothing_lives() {
    for (context_alive, accel_alive, action) in [
        (true, true, WorkerAction::Sleep),
        (true, false, WorkerAction::Exit),
        (false, true, WorkerAction::Exit),
        (false, false, WorkerAction::Exit),
    ] {
        let mut state = WorkerState { phase: WorkerPhase::Serving, first_msg: false };
        assert_eq!(state.step(WorkerEvent::Timeout { context_alive, accel_alive }), action);
    }
    let mut idle = WorkerState { phase: WorkerPhase::Idle, first_msg: false };
    assert_eq!(idle.step(received(WorkerMessage::AddAccel, false)), WorkerAction::Exit);
    assert_eq!(idle, WorkerState { phase: WorkerPhase::Idle, first_msg: false });
    assert_eq!(
        idle.step(received(WorkerMessage::Codegen { cached: false }, true)),
        WorkerAction::Codegen { send_cached: false }
    );
    assert_eq!(idle.phase, WorkerPhase::Serving);
    let mut idle = WorkerState { phase: WorkerPhase::Idle, first_msg: false };
    assert_eq!(idle.step(WorkerEvent::Disconnected), WorkerAction::Exit);
}
