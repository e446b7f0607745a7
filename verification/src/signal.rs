//! Signals: 64-bit values that producers and consumers notify each other
//! through, and the pool that packets refer to them in.

use vstd::prelude::*;

verus! {

/// The memory ordering that an access to a signal or to a queue index asks
/// for. A value that is exclusively owned reads and writes the same under
/// every ordering; the ordering says which fence the access stands for when
/// the value is shared.
#[derive(Clone, Copy, Debug, PartialEq, Eq, Structural, Hash)]
pub enum MemoryOrder {
    Relaxed,
    Acquire,
    Release,
    AcquireRelease,
}

/// How a waiter passes the time until its condition holds.
#[derive(Clone, Copy, Debug, PartialEq, Eq, Structural, Hash)]
pub enum WaitState {
    Spin,
    Blocked,
}

/// The comparison between a signal's value and a target that a waiter waits
/// for.
#[derive(Clone, Copy, Debug, PartialEq, Eq, Structural, Hash)]
pub enum WaitCondition {
    Equal,
    NotEqual,
    Less,
    LessEqual,
    Greater,
    GreaterEqual,
}

impl WaitCondition {
    /// Whether `value` stands in this relation to `target`.
    pub open spec fn spec_holds(self, value: i64, target: i64) -> bool {
        match self {
            WaitCondition::Equal => value == target,
            WaitCondition::NotEqual => value != target,
            WaitCondition::Less => value < target,
            WaitCondition::LessEqual => value <= target,
            WaitCondition::Greater => value > target,
            WaitCondition::GreaterEqual => value >= target,
        }
    }

    #[verifier::when_used_as_spec(spec_holds)]
    pub fn holds(self, value: i64, target: i64) -> (met: bool)
        ensures
            met == self.spec_holds(value, target),
    {
        match self {
            WaitCondition::Equal => value == target,
            WaitCondition::NotEqual => value != target,
            WaitCondition::Less => value < target,
            WaitCondition::LessEqual => value <= target,
            WaitCondition::Greater => value > target,
            WaitCondition::GreaterEqual => value >= target,
        }
    }
}

/// `a + b` in 64-bit two's complement.
pub open spec fn spec_wrapping_add(a: i64, b: i64) -> i64 {
    if a + b > i64::MAX {
        (a + b - 0x1_0000_0000_0000_0000) as i64
    } else if a + b < i64::MIN {
        (a + b + 0x1_0000_0000_0000_0000) as i64
    } else {
        (a + b) as i64
    }
}

/// `a - b` in 64-bit two's complement.
pub open spec fn spec_wrapping_sub(a: i64, b: i64) -> i64 {
    if a - b > i64::MAX {
        (a - b - 0x1_0000_0000_0000_0000) as i64
    } else if a - b < i64::MIN {
        (a - b + 0x1_0000_0000_0000_0000) as i64
    } else {
        (a - b) as i64
    }
}

/// A signal: one 64-bit value.
#[derive(Debug)]
pub struct Signal {
    value: i64,
}

impl View for Signal {
    type V = i64;

    closed spec fn view(&self) -> i64 {
        self.value
    }
}

impl Signal {
    /// A signal that holds `initial`.
    pub fn new(initial: i64) -> (signal: Signal)
        ensures
            signal@ == initial,
    {
        Signal { value: initial }
    }

    /// The signal's value.
    pub fn load(&self, order: MemoryOrder) -> (value: i64)
        ensures
            value == self@,
    {
        self.value
    }

    /// Replaces the signal's value.
    pub fn store(&mut self, value: i64, order: MemoryOrder)
        ensures
            final(self)@ == value,
    {
        self.value = value;
    }

    /// Adds `delta` to the value, wrapping, and returns the value before.
    pub fn add(&mut self, delta: i64, order: MemoryOrder) -> (prev: i64)
        ensures
            prev == old(self)@,
            final(self)@ == spec_wrapping_add(old(self)@, delta),
    {
        let prev: i64 = self.value;
        self.value = prev.wrapping_add(delta);
        prev
    }

    /// Subtracts `delta` from the value, wrapping, and returns the value
    /// before.
    pub fn subtract(&mut self, delta: i64, order: MemoryOrder) -> (prev: i64)
        ensures
            prev == old(self)@,
            final(self)@ == spec_wrapping_sub(old(self)@, delta),
    {
        let prev: i64 = self.value;
        self.value = prev.wrapping_sub(delta);
        prev
    }

    /// What a wait on a signal with this value comes back with: the value,
    /// where the condition holds or the wait is bounded by a timeout; and
    /// nothing where an unbounded wait would have to go on, since nobody
    /// else can change a value that the waiter owns.
    pub open spec fn spec_wait_for(
        value: i64,
        condition: WaitCondition,
        target: i64,
        timeout: Option<u64>,
    ) -> Option<i64> {
        if condition.spec_holds(value, target) || timeout is Some {
            Some(value)
        } else {
            None
        }
    }

    /// Waits until the value stands in `condition` to `target`, for at most
    /// `timeout` where one is given, and returns the value last seen.
    /// `None` says that the condition does not hold and no timeout ends the
    /// wait: the caller has to let another owner change the signal first.
    pub fn wait_for(
        &self,
        condition: WaitCondition,
        target: i64,
        order: MemoryOrder,
        timeout: Option<u64>,
        style: WaitState,
    ) -> (observed: Option<i64>)
        ensures
            observed == Self::spec_wait_for(self@, condition, target, timeout),
    {
        if condition.holds(self.value, target) {
            Some(self.value)
        } else {
            match timeout {
                Some(_) => Some(self.value),
                None => None,
            }
        }
    }
}

/// A reference to a signal of a pool. The handle 0 refers to no signal.
#[derive(Clone, Copy, Debug, PartialEq, Eq, Structural, Hash)]
pub struct SignalRef {
    pub handle: u64,
}

impl Default for SignalRef {
    fn default() -> (none: Self)
        ensures
            none.handle == 0,
    {
        SignalRef { handle: 0 }
    }
}

impl SignalRef {
    pub open spec fn spec_is_null(&self) -> bool {
        self.handle == 0
    }

    /// Whether this is the reference to no signal.
    #[verifier::when_used_as_spec(spec_is_null)]
    pub fn is_null(&self) -> (null: bool)
        ensures
            null == self.spec_is_null(),
    {
        self.handle == 0
    }
}

/// The signals that packets refer to. The signal with handle `h` is the
/// `h`-th that the pool created, counting from 1.
#[derive(Debug)]
pub struct SignalPool {
    signals: Vec<Signal>,
}

impl View for SignalPool {
    type V = Seq<i64>;

    /// The values of the pool's signals, in the order of their creation.
    closed spec fn view(&self) -> Seq<i64> {
        self.signals@.map_values(|s: Signal| s@)
    }
}

/// Whether `signal` refers to one of the signals whose values are `values`.
pub open spec fn spec_pool_holds(values: Seq<i64>, signal: SignalRef) -> bool {
    1 <= signal.handle <= values.len()
}

/// The values after the signal that `signal` refers to was set to `value`;
/// unchanged where it refers to none of them.
pub open spec fn spec_pool_set(values: Seq<i64>, signal: SignalRef, value: i64) -> Seq<i64> {
    if spec_pool_holds(values, signal) {
        values.update(signal.handle - 1, value)
    } else {
        values
    }
}

impl SignalPool {
    /// Whether `signal` refers to a signal of this pool.
    pub open spec fn spec_holds(&self, signal: SignalRef) -> bool {
        spec_pool_holds(self@, signal)
    }

    /// The value of the signal that `signal` refers to.
    pub open spec fn value(&self, signal: SignalRef) -> i64
        recommends
            self.spec_holds(signal),
    {
        self@[signal.handle - 1]
    }

    /// A pool without signals.
    pub fn new() -> (pool: SignalPool)
        ensures
            pool@ == Seq::<i64>::empty(),
    {
        let pool = SignalPool { signals: Vec::new() };
        assert(pool@ =~= Seq::<i64>::empty());
        pool
    }

    /// The number of signals created so far.
    pub fn len(&self) -> (n: usize)
        ensures
            n == self@.len(),
    {
        self.signals.len()
    }

    /// Creates a signal that holds `initial` and returns the reference to
    /// it.
    pub fn create(&mut self, initial: i64) -> (signal: SignalRef)
        requires
            old(self)@.len() < usize::MAX,
        ensures
            signal.handle == old(self)@.len() + 1,
            final(self)@ == old(self)@.push(initial),
    {
        let n: usize = self.signals.len();
        self.signals.push(Signal::new(initial));
        assert(self@ =~= old(self)@.push(initial));
        SignalRef { handle: n as u64 + 1 }
    }

    /// Whether `signal` refers to a signal of this pool.
    #[verifier::when_used_as_spec(spec_holds)]
    pub fn holds(&self, signal: SignalRef) -> (known: bool)
        ensures
            known == self.spec_holds(signal),
    {
        signal.handle >= 1 && signal.handle <= self.signals.len() as u64
    }

    /// The position of a signal of this pool among its signals.
    fn index_of(&self, signal: SignalRef) -> (i: usize)
        requires
            self.spec_holds(signal),
        ensures
            i == signal.handle - 1,
            i < self.signals@.len(),
            self@[i as int] == self.signals@[i as int]@,
    {
        let n: usize = self.signals.len();
        (signal.handle - 1) as usize
    }

    /// The value of a signal; `None` where the reference is to no signal of
    /// this pool.
    pub fn load(&self, signal: SignalRef, order: MemoryOrder) -> (value: Option<i64>)
        ensures
            value == if self.spec_holds(signal) {
                Some(self.value(signal))
            } else {
                None
            },
    {
        if self.holds(signal) {
            let i: usize = self.index_of(signal);
            Some(self.signals[i].load(order))
        } else {
            None
        }
    }

    /// Replaces the value of a signal and returns the value before; `None`,
    /// and nothing changed, where the reference is to no signal of this
    /// pool.
    pub fn store(&mut self, signal: SignalRef, value: i64, order: MemoryOrder) -> (prev: Option<
        i64,
    >)
        ensures
            prev == if old(self).spec_holds(signal) {
                Some(old(self).value(signal))
            } else {
                None
            },
            final(self)@ == spec_pool_set(old(self)@, signal, value),
    {
        if self.holds(signal) {
            let i: usize = self.index_of(signal);
            let prev: i64 = self.signals[i].load(order);
            self.signals[i].store(value, order);
            assert(self@ =~= spec_pool_set(old(self)@, signal, value));
            Some(prev)
        } else {
            None
        }
    }

    /// Adds `delta` to a signal, wrapping, and returns the value before;
    /// `None`, and nothing changed, where the reference is to no signal of
    /// this pool.
    pub fn add(&mut self, signal: SignalRef, delta: i64, order: MemoryOrder) -> (prev: Option<i64>)
        ensures
            prev == if old(self).spec_holds(signal) {
                Some(old(self).value(signal))
            } else {
                None
            },
            final(self)@ == if old(self).spec_holds(signal) {
                spec_pool_set(
                    old(self)@,
                    signal,
                    spec_wrapping_add(old(self).value(signal), delta),
                )
            } else {
                old(self)@
            },
    {
        if self.holds(signal) {
            let i: usize = self.index_of(signal);
            let prev: i64 = self.signals[i].add(delta, order);
            assert(self@ =~= spec_pool_set(
                old(self)@,
                signal,
                spec_wrapping_add(old(self).value(signal), delta),
            ));
            Some(prev)
        } else {
            None
        }
    }

    /// Subtracts `delta` from a signal, wrapping, and returns the value
    /// before; `None`, and nothing changed, where the reference is to no
    /// signal of this pool.
    pub fn subtract(&mut self, signal: SignalRef, delta: i64, order: MemoryOrder) -> (prev: Option<
        i64,
    >)
        ensures
            prev == if old(self).spec_holds(signal) {
                Some(old(self).value(signal))
            } else {
                None
            },
            final(self)@ == spec_pool_subtract(old(self)@, signal, delta),
    {
        if self.holds(signal) {
            let i: usize = self.index_of(signal);
            let prev: i64 = self.signals[i].subtract(delta, order);
            assert(self@ =~= spec_pool_subtract(old(self)@, signal, delta));
            Some(prev)
        } else {
            None
        }
    }
}

/// The values after `delta` was subtracted, wrapping, from the signal that
/// `signal` refers to; unchanged where it refers to none of them.
pub open spec fn spec_pool_subtract(values: Seq<i64>, signal: SignalRef, delta: i64) -> Seq<i64> {
    if spec_pool_holds(values, signal) {
        values.update(signal.handle - 1, spec_wrapping_sub(values[signal.handle - 1], delta))
    } else {
        values
    }
}

} // verus!
