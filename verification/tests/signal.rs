use hsa_rt::packet::{barrier_body, BarrierBody, PacketBody};
use hsa_rt::header::{header, FenceScope, PacketType};
use hsa_rt::queue::{Agent, QueueError, QueueKind, RingQueue};
use hsa_rt::signal::{
    MemoryOrder, Signal, SignalPool, SignalRef, WaitCondition, WaitState,
};

#[test]
fn signal_load_store_add_subtract() {
    let mut signal = Signal::new(5);
    assert_eq!(signal.load(MemoryOrder::Relaxed), 5);
    assert_eq!(signal.load(MemoryOrder::Acquire), 5);
    signal.store(-7, MemoryOrder::Release);
    assert_eq!(signal.load(MemoryOrder::Acquire), -7);
    assert_eq!(signal.add(10, MemoryOrder::AcquireRelease), -7);
    assert_eq!(signal.load(MemoryOrder::Acquire), 3);
    assert_eq!(signal.subtract(4, MemoryOrder::Release), 3);
    assert_eq!(signal.load(MemoryOrder::Acquire), -1);
}

#[test]
fn signal_arithmetic_wraps() {
    let mut signal = Signal::new(i64::MAX);
    assert_eq!(signal.add(1, MemoryOrder::Relaxed), i64::MAX);
    assert_eq!(signal.load(MemoryOrder::Relaxed), i64::MIN);
    assert_eq!(signal.subtract(1, MemoryOrder::Relaxed), i64::MIN);
    assert_eq!(signal.load(MemoryOrder::Relaxed), i64::MAX);
    assert_eq!(signal.subtract(-1, MemoryOrder::Relaxed), i64::MAX);
    assert_eq!(signal.load(MemoryOrder::Relaxed), i64::MIN);
}

#[test]
fn wait_conditions() {
    assert!(WaitCondition::Equal.holds(3, 3));
    assert!(!WaitCondition::Equal.holds(3, 4));
    assert!(WaitCondition::NotEqual.holds(3, 4));
    assert!(!WaitCondition::NotEqual.holds(3, 3));
    assert!(WaitCondition::Less.holds(-1, 0));
    assert!(!WaitCondition::Less.holds(0, 0));
    assert!(WaitCondition::LessEqual.holds(0, 0));
    assert!(!WaitCondition::LessEqual.holds(1, 0));
    assert!(WaitCondition::Greater.holds(1, 0));
    assert!(!WaitCondition::Greater.holds(0, 0));
    assert!(WaitCondition::GreaterEqual.holds(0, 0));
    assert!(!WaitCondition::GreaterEqual.holds(-1, 0));
}

#[test]
fn wait_returns_the_value_or_asks_to_block() {
    let signal = Signal::new(2);
    let met = signal.wait_for(
        WaitCondition::GreaterEqual,
        2,
        MemoryOrder::Acquire,
        None,
        WaitState::Blocked,
    );
    assert_eq!(met, Some(2));
    let timed_out = signal.wait_for(
        WaitCondition::Equal,
        0,
        MemoryOrder::Acquire,
        Some(1000),
        WaitState::Spin,
    );
    assert_eq!(timed_out, Some(2));
    let blocks =
        signal.wait_for(WaitCondition::Equal, 0, MemoryOrder::Acquire, None, WaitState::Blocked);
    assert_eq!(blocks, None);
}

#[test]
fn pool_refers_to_signals_by_handle() {
    let mut pool = SignalPool::new();
    assert_eq!(pool.len(), 0);
    assert!(!pool.holds(SignalRef { handle: 0 }));
    assert!(!pool.holds(SignalRef { handle: 1 }));
    let first = pool.create(10);
    let second = pool.create(20);
    assert_eq!(first, SignalRef { handle: 1 });
    assert_eq!(second, SignalRef { handle: 2 });
    assert_eq!(pool.len(), 2);
    assert!(pool.holds(first) && pool.holds(second));
    assert!(!pool.holds(SignalRef { handle: 3 }));
    assert!(SignalRef::default().is_null());
    assert!(!first.is_null());
    assert_eq!(pool.load(first, MemoryOrder::Acquire), Some(10));
    assert_eq!(pool.load(second, MemoryOrder::Acquire), Some(20));
    assert_eq!(pool.load(SignalRef::default(), MemoryOrder::Acquire), None);
    assert_eq!(pool.store(second, 21, MemoryOrder::Release), Some(20));
    assert_eq!(pool.add(second, 4, MemoryOrder::Release), Some(21));
    assert_eq!(pool.subtract(first, 1, MemoryOrder::Release), Some(10));
    assert_eq!(pool.load(first, MemoryOrder::Acquire), Some(9));
    assert_eq!(pool.load(second, MemoryOrder::Acquire), Some(25));
    assert_eq!(pool.store(SignalRef { handle: 3 }, 1, MemoryOrder::Release), None);
    assert_eq!(pool.add(SignalRef { handle: 0 }, 1, MemoryOrder::Release), None);
    assert_eq!(pool.subtract(SignalRef { handle: 99 }, 1, MemoryOrder::Release), None);
    assert_eq!(pool.load(first, MemoryOrder::Acquire), Some(9));
    assert_eq!(pool.load(second, MemoryOrder::Acquire), Some(25));
}

#[test]
fn barrier_takes_up_to_five_dependencies() {
    let deps: Vec<SignalRef> = (1..=7).map(|handle| SignalRef { handle }).collect();
    let none = SignalRef::default();
    let body = barrier_body(&deps[..2], None);
    assert_eq!(body.dep_signal, [deps[0], deps[1], none, none, none]);
    assert_eq!(body.completion_signal, none);
    let body = barrier_body(&deps, Some(deps[6]));
    assert_eq!(body.dep_signal, [deps[0], deps[1], deps[2], deps[3], deps[4]]);
    assert_eq!(body.completion_signal, deps[6]);
    let body = barrier_body(&[], None);
    assert_eq!(body.dep_signal, [none; 5]);
}

#[test]
fn barrier_and_waits_for_both_signals() {
    let mut pool = SignalPool::new();
    let s1 = pool.create(1);
    let s2 = pool.create(1);
    let barrier = barrier_body(&[s1, s2], None);
    assert!(!barrier.and_met(&pool));
    pool.subtract(s1, 1, MemoryOrder::Release);
    assert!(!barrier.and_met(&pool));
    pool.subtract(s2, 1, MemoryOrder::Release);
    assert!(barrier.and_met(&pool));
    pool.add(s1, 1, MemoryOrder::Release);
    assert!(!barrier.and_met(&pool));
}

#[test]
fn barrier_or_waits_for_one_signal() {
    let mut pool = SignalPool::new();
    let s1 = pool.create(2);
    let s2 = pool.create(1);
    let barrier = barrier_body(&[s1, s2], None);
    assert!(!barrier.or_met(&pool));
    pool.subtract(s2, 1, MemoryOrder::Release);
    assert!(barrier.or_met(&pool));
    assert!(!barrier.and_met(&pool));
}

#[test]
fn barrier_without_dependencies() {
    let pool = SignalPool::new();
    let barrier = barrier_body(&[], None);
    assert!(barrier.and_met(&pool));
    assert!(!barrier.or_met(&pool));
    // A dependency on a signal that the pool does not hold is not waited for.
    let barrier = BarrierBody {
        dep_signal: [SignalRef { handle: 4 }; 5],
        completion_signal: SignalRef::default(),
    };
    assert!(barrier.and_met(&pool));
    assert!(!barrier.or_met(&pool));
}

#[test]
fn barrier_packets_are_unfenced_and_ordered_with_completion() {
    let mut queue = Agent::new(0).new_queue(4, None::<fn()>, None, None).unwrap();
    let deps = [SignalRef { handle: 3 }, SignalRef { handle: 4 }];
    assert_eq!(queue.try_enqueue_barrier_and(&deps, None), Ok(()));
    assert_eq!(queue.try_enqueue_barrier_or(&deps, Some(SignalRef { handle: 9 })), Ok(()));
    assert_eq!(queue.try_enqueue_barrier_and(&deps, Some(SignalRef { handle: 9 })), Ok(()));
    assert_eq!(queue.try_enqueue_barrier_or(&deps, None), Ok(()));
    let slot = |index: u64| *QueueKind::raw(queue.raw_queue()).packet(index);
    assert_eq!(
        slot(0).header(),
        header(PacketType::BarrierAnd, &FenceScope::NoFence, &FenceScope::NoFence, false)
    );
    assert_eq!(slot(0).header(), 3);
    assert_eq!(slot(0).setup(), 0);
    assert_eq!(slot(0).body, PacketBody::Barrier(barrier_body(&deps, None)));
    assert_eq!(
        slot(1).header(),
        header(PacketType::BarrierOr, &FenceScope::NoFence, &FenceScope::NoFence, true)
    );
    assert_eq!(slot(1).header(), 5 | (1 << 8));
    assert_eq!(
        slot(1).body,
        PacketBody::Barrier(barrier_body(&deps, Some(SignalRef { handle: 9 })))
    );
    assert_eq!(slot(2).header(), 3 | (1 << 8));
    assert_eq!(slot(3).header(), 5);
    assert_eq!(queue.try_enqueue_barrier_and(&deps, None), Err(QueueError::Full));
    assert_eq!(queue.try_enqueue_barrier_or(&deps, None), Err(QueueError::Full));
}

#[test]
fn barrier_in_a_slot_is_met_by_its_kind() {
    let mut pool = SignalPool::new();
    let s1 = pool.create(1);
    let s2 = pool.create(0);
    let mut queue = Agent::new(0).new_queue(4, None::<fn()>, None, None).unwrap();
    assert_eq!(queue.try_enqueue_barrier_and(&[s1, s2], None), Ok(()));
    assert_eq!(queue.try_enqueue_barrier_or(&[s1, s2], None), Ok(()));
    let raw = QueueKind::raw(queue.raw_queue());
    assert_eq!(raw.packet(0).barrier_met(&pool), Some(false));
    assert_eq!(raw.packet(1).barrier_met(&pool), Some(true));
    assert_eq!(raw.packet(2).barrier_met(&pool), None);
    pool.subtract(s1, 1, MemoryOrder::Release);
    assert_eq!(raw.packet(0).barrier_met(&pool), Some(true));
}
