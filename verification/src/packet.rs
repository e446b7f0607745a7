//! Packets: what a ring slot holds, and the descriptors they are made from.
//!
//! A slot is 64 bytes on the wire. Its first 32-bit word holds the header
//! and, above it, the 16-bit setup field; the rest depends on the kind:
//!
//! - kernel dispatch: workgroup sizes x, y, z (16 bits each), 16 reserved
//!   bits, grid sizes x, y, z (32 bits each), private and group segment
//!   sizes (32 bits each), the kernel object (64 bits), the address of the
//!   kernel arguments, 64 reserved bits, the completion signal;
//! - barrier: 32 reserved bits, five dependency signals, 64 reserved bits,
//!   the completion signal;
//! - agent dispatch: 32 reserved bits, the return address, four arguments
//!   (64 bits each), 64 reserved bits, the completion signal.

use vstd::prelude::*;
use crate::header::{
    head_word, header, spec_head_word, spec_header, spec_word_header, spec_word_rest,
    split_head_word, FenceScope, PacketHeader, PacketType,
};
use crate::queue::QueueError;
use crate::signal::{spec_pool_holds, MemoryOrder, SignalPool, SignalRef};

verus! {

/// The number of dependency signals that one barrier packet holds.
pub const MAX_BARRIER_DEPS: usize = 5;

/// The number of arguments that one agent dispatch holds.
pub const AGENT_DISPATCH_ARGS: usize = 4;

/// The body of a kernel dispatch.
#[derive(Clone, Copy, Debug, PartialEq, Eq)]
pub struct KernelDispatchBody {
    pub workgroup_size_x: u16,
    pub workgroup_size_y: u16,
    pub workgroup_size_z: u16,
    pub grid_size_x: u32,
    pub grid_size_y: u32,
    pub grid_size_z: u32,
    pub private_segment_size: u32,
    pub group_segment_size: u32,
    pub kernel_object: u64,
    pub kernarg_address: u64,
    pub completion_signal: SignalRef,
}

/// The body of a barrier, of either kind.
#[derive(Clone, Copy, Debug, PartialEq, Eq)]
pub struct BarrierBody {
    pub dep_signal: [SignalRef; 5],
    pub completion_signal: SignalRef,
}

/// The body of an agent dispatch. The function that the agent is asked for
/// stands in the setup field of the slot's first word.
#[derive(Clone, Copy, Debug, PartialEq, Eq)]
pub struct AgentDispatchBody {
    pub return_address: u64,
    pub arg: [u64; 4],
    pub completion_signal: SignalRef,
}

/// What follows the first word of a slot.
#[derive(Clone, Copy, Debug, PartialEq, Eq)]
pub enum PacketBody {
    /// Nothing was written yet.
    Vacant,
    KernelDispatch(KernelDispatchBody),
    Barrier(BarrierBody),
    AgentDispatch(AgentDispatchBody),
}

/// One slot of a ring.
#[derive(Clone, Copy, Debug, PartialEq, Eq)]
pub struct Packet {
    /// The header in the low 16 bits, the setup field in the high 16 bits.
    pub head: u32,
    pub body: PacketBody,
}

impl PacketBody {
    pub open spec fn spec_completion_signal(&self) -> SignalRef {
        match self {
            PacketBody::Vacant => SignalRef { handle: 0 },
            PacketBody::KernelDispatch(b) => b.completion_signal,
            PacketBody::Barrier(b) => b.completion_signal,
            PacketBody::AgentDispatch(b) => b.completion_signal,
        }
    }

    /// The completion signal of this body; the reference to no signal where
    /// the body is vacant.
    #[verifier::when_used_as_spec(spec_completion_signal)]
    pub fn completion_signal(&self) -> (signal: SignalRef)
        ensures
            signal == self.spec_completion_signal(),
    {
        match self {
            PacketBody::Vacant => SignalRef { handle: 0 },
            PacketBody::KernelDispatch(b) => b.completion_signal,
            PacketBody::Barrier(b) => b.completion_signal,
            PacketBody::AgentDispatch(b) => b.completion_signal,
        }
    }
}

/// The header that says that a slot holds nothing to process.
pub open spec fn spec_invalid_header() -> u16 {
    spec_header(PacketType::Invalid, FenceScope::System, FenceScope::System, false)
}

/// A slot after its header was overwritten with the invalid header: the
/// setup field and the body stay.
pub open spec fn spec_invalidated(packet: Packet) -> Packet {
    Packet {
        head: spec_head_word(spec_invalid_header(), spec_word_rest(packet.head)),
        body: packet.body,
    }
}

impl Packet {
    /// The header half of the first word.
    pub open spec fn spec_header(&self) -> u16 {
        spec_word_header(self.head)
    }

    /// The setup half of the first word.
    pub open spec fn spec_setup(&self) -> u16 {
        spec_word_rest(self.head)
    }

    /// The type that the header names, if it names one.
    pub open spec fn spec_packet_type(&self) -> Option<PacketType> {
        PacketType::spec_from_code(self.spec_header() % 256)
    }

    /// Whether the header says that the slot holds nothing to process.
    pub open spec fn spec_is_invalid(&self) -> bool {
        self.spec_packet_type() == Some(PacketType::Invalid)
    }

    /// A slot that nothing was written to: an invalid header without
    /// fences, a zero setup field and a vacant body.
    pub open spec fn spec_vacant() -> Packet {
        Packet {
            head: spec_head_word(
                spec_header(PacketType::Invalid, FenceScope::NoFence, FenceScope::NoFence, false),
                0,
            ),
            body: PacketBody::Vacant,
        }
    }

    /// A slot that nothing was written to.
    pub fn vacant() -> (packet: Packet)
        ensures
            packet == Self::spec_vacant(),
            packet.spec_is_invalid(),
    {
        let h: u16 = header(PacketType::Invalid, &FenceScope::NoFence, &FenceScope::NoFence, false);
        Packet { head: head_word(h, 0), body: PacketBody::Vacant }
    }

    /// The header half of the first word.
    #[verifier::when_used_as_spec(spec_header)]
    pub fn header(&self) -> (h: u16)
        ensures
            h == self.spec_header(),
    {
        split_head_word(self.head).0
    }

    /// The setup half of the first word.
    #[verifier::when_used_as_spec(spec_setup)]
    pub fn setup(&self) -> (s: u16)
        ensures
            s == self.spec_setup(),
    {
        split_head_word(self.head).1
    }

    /// The type that the header names, if it names one.
    #[verifier::when_used_as_spec(spec_packet_type)]
    pub fn packet_type(&self) -> (ty: Option<PacketType>)
        ensures
            ty == self.spec_packet_type(),
    {
        let h: u16 = self.header();
        assert(h & 0xff == h % 256) by (bit_vector);
        PacketType::from_code(h & 0xff)
    }

    /// The four fields of the header, where its type and scopes are known.
    pub fn decode_header(&self) -> (fields: Option<PacketHeader>)
        ensures
            fields == crate::header::spec_decode(self.spec_header()),
    {
        PacketHeader::decode(self.header())
    }

    /// Whether the header says that the slot holds nothing to process.
    #[verifier::when_used_as_spec(spec_is_invalid)]
    pub fn is_invalid(&self) -> (invalid: bool)
        ensures
            invalid == self.spec_is_invalid(),
    {
        match self.packet_type() {
            Some(PacketType::Invalid) => true,
            _ => false,
        }
    }
}

/// Stores the header and the setup field of a slot as one word, which is
/// what publishes a packet; the body is not touched.
pub fn packet_store_rel(packet: &mut Packet, header: u16, rest: u16)
    ensures
        final(packet).head == spec_head_word(header, rest),
        final(packet).spec_header() == header,
        final(packet).spec_setup() == rest,
        final(packet).body == old(packet).body,
{
    packet.head = head_word(header, rest);
}

/// Overwrites the header of a slot with the invalid header and keeps its
/// setup field, so that nothing reads the slot as a packet again before a
/// producer has published into it.
pub fn invalidate(packet: &mut Packet)
    ensures
        *final(packet) == spec_invalidated(*old(packet)),
        final(packet).spec_is_invalid(),
{
    let rest: u16 = packet.setup();
    let h: u16 = header(PacketType::Invalid, &FenceScope::System, &FenceScope::System, false);
    packet_store_rel(packet, h, rest);
}

/// What a kernel launch asks for.
#[derive(Clone, Copy, Debug)]
pub struct DispatchPacket {
    pub workgroup_size: (u16, u16, u16),
    pub grid_size: (u32, u32, u32),
    pub private_segment_size: u32,
    pub group_segment_size: u32,
    pub ordered: bool,
    pub scaquire_scope: FenceScope,
    pub screlease_scope: FenceScope,
    pub kernel_object: u64,
    /// The address of the buffer that holds the kernel's arguments.
    pub kernel_args: u64,
    pub completion_signal: Option<SignalRef>,
}

/// The number of grid dimensions that a launch uses: 0 where the grid is a
/// single item, 1 where only x is not 1, 2 where z is 1, and 3 otherwise.
pub open spec fn spec_dimensions(grid: (u32, u32, u32)) -> usize {
    if grid.0 == 1 && grid.1 == 1 && grid.2 == 1 {
        0
    } else if grid.1 == 1 && grid.2 == 1 {
        1
    } else if grid.2 == 1 {
        2
    } else {
        3
    }
}

impl DispatchPacket {
    /// Why this launch is refused, if it is: a workgroup dimension of zero
    /// first, then a grid dimension of zero.
    pub open spec fn spec_check(&self) -> Result<(), QueueError> {
        if self.workgroup_size.0 == 0 || self.workgroup_size.1 == 0 || self.workgroup_size.2 == 0 {
            Err(QueueError::WorkgroupDimSize)
        } else if self.grid_size.0 == 0 || self.grid_size.1 == 0 || self.grid_size.2 == 0 {
            Err(QueueError::GridDimSize)
        } else {
            Ok(())
        }
    }

    /// The body that this launch is written as.
    pub open spec fn spec_body(&self) -> KernelDispatchBody {
        KernelDispatchBody {
            workgroup_size_x: self.workgroup_size.0,
            workgroup_size_y: self.workgroup_size.1,
            workgroup_size_z: self.workgroup_size.2,
            grid_size_x: self.grid_size.0,
            grid_size_y: self.grid_size.1,
            grid_size_z: self.grid_size.2,
            private_segment_size: self.private_segment_size,
            group_segment_size: self.group_segment_size,
            kernel_object: self.kernel_object,
            kernarg_address: self.kernel_args,
            completion_signal: spec_completion(self.completion_signal),
        }
    }

    /// The header that this launch is published under.
    pub open spec fn spec_header(&self) -> u16 {
        spec_header(
            PacketType::KernelDispatch,
            self.scaquire_scope,
            self.screlease_scope,
            self.ordered,
        )
    }

    /// The setup field that this launch is published under: the number of
    /// its grid dimensions.
    pub open spec fn spec_setup(&self) -> u16 {
        spec_dimensions(self.grid_size) as u16
    }

    /// The slot that this launch is published as.
    pub open spec fn spec_packet(&self) -> Packet {
        Packet {
            head: spec_head_word(self.spec_header(), self.spec_setup()),
            body: PacketBody::KernelDispatch(self.spec_body()),
        }
    }

    /// Refuses a launch with a workgroup or grid dimension of zero.
    pub fn check(&self) -> (verdict: Result<(), QueueError>)
        ensures
            verdict == self.spec_check(),
    {
        let wg = self.workgroup_size;
        let grid = self.grid_size;
        if wg.0 == 0 || wg.1 == 0 || wg.2 == 0 {
            return Err(QueueError::WorkgroupDimSize);
        }
        if grid.0 == 0 || grid.1 == 0 || grid.2 == 0 {
            return Err(QueueError::GridDimSize);
        }
        Ok(())
    }

    /// Writes this launch into the body of a slot, leaving the slot's first
    /// word alone, and returns the number of grid dimensions.
    pub fn initialize_packet(&self, p: &mut Packet) -> (dimensions: usize)
        ensures
            final(p).head == old(p).head,
            final(p).body == PacketBody::KernelDispatch(self.spec_body()),
            dimensions == spec_dimensions(self.grid_size),
            dimensions <= 3,
    {
        let workgroup_size = self.workgroup_size;
        let grid = self.grid_size;
        let completion_signal = match self.completion_signal {
            Some(signal) => signal,
            None => SignalRef::default(),
        };
        p.body = PacketBody::KernelDispatch(
            KernelDispatchBody {
                workgroup_size_x: workgroup_size.0,
                workgroup_size_y: workgroup_size.1,
                workgroup_size_z: workgroup_size.2,
                grid_size_x: grid.0,
                grid_size_y: grid.1,
                grid_size_z: grid.2,
                private_segment_size: self.private_segment_size,
                group_segment_size: self.group_segment_size,
                kernel_object: self.kernel_object,
                kernarg_address: self.kernel_args,
                completion_signal,
            },
        );
        if grid.0 == 1 && grid.1 == 1 && grid.2 == 1 {
            0
        } else if grid.1 == 1 && grid.2 == 1 {
            1
        } else if grid.2 == 1 {
            2
        } else {
            3
        }
    }
}

/// The `i`-th dependency signal of a barrier that is handed `deps`: the
/// `i`-th of them, and the reference to no signal where there are fewer.
pub open spec fn spec_barrier_dep(deps: Seq<SignalRef>, i: int) -> SignalRef {
    if 0 <= i < deps.len() {
        deps[i]
    } else {
        SignalRef { handle: 0 }
    }
}

/// The completion signal that a packet carries for `completion`: the
/// signal, or the reference to no signal.
pub open spec fn spec_completion(completion: Option<SignalRef>) -> SignalRef {
    match completion {
        Some(signal) => signal,
        None => SignalRef { handle: 0 },
    }
}

/// The body of a barrier on `deps`: the first five of them, in their
/// order, are its dependency signals.
pub open spec fn spec_barrier_body(deps: Seq<SignalRef>, completion: Option<SignalRef>) -> BarrierBody {
    BarrierBody {
        dep_signal: [
            spec_barrier_dep(deps, 0),
            spec_barrier_dep(deps, 1),
            spec_barrier_dep(deps, 2),
            spec_barrier_dep(deps, 3),
            spec_barrier_dep(deps, 4),
        ],
        completion_signal: spec_completion(completion),
    }
}

/// The slot that a barrier of type `ty` on `deps` is published as: no
/// fences, the ordering bit set where the barrier has a completion signal,
/// and a zero setup field.
pub open spec fn spec_barrier_packet(
    ty: PacketType,
    deps: Seq<SignalRef>,
    completion: Option<SignalRef>,
) -> Packet {
    Packet {
        head: spec_head_word(
            spec_header(ty, FenceScope::NoFence, FenceScope::NoFence, completion is Some),
            0,
        ),
        body: PacketBody::Barrier(spec_barrier_body(deps, completion)),
    }
}

/// The body of a barrier on `deps`: up to five of them are taken, in their
/// order, and the places left over refer to no signal.
pub fn barrier_body(deps: &[SignalRef], completion: Option<SignalRef>) -> (body: BarrierBody)
    ensures
        body == spec_barrier_body(deps@, completion),
{
    let none = SignalRef { handle: 0 };
    let mut dep_signal: [SignalRef; 5] = [none, none, none, none, none];
    let mut i: usize = 0;
    while i < 5 && i < deps.len()
        invariant
            i <= 5,
            i <= deps@.len(),
            forall|j: int| 0 <= j < i ==> dep_signal@[j] == deps@[j],
            forall|j: int| i <= j < 5 ==> dep_signal@[j] == (SignalRef { handle: 0 }),
        decreases 5 - i,
    {
        dep_signal[i] = deps[i];
        i = i + 1;
    }
    assert(dep_signal@ =~= spec_barrier_body(deps@, completion).dep_signal@);
    assert(dep_signal == spec_barrier_body(deps@, completion).dep_signal);
    let completion_signal = match completion {
        Some(signal) => signal,
        None => SignalRef::default(),
    };
    BarrierBody { dep_signal, completion_signal }
}

/// Whether the signal that `dep` refers to among `values` has reached
/// zero.
pub open spec fn spec_dep_at_zero(dep: SignalRef, values: Seq<i64>) -> bool {
    spec_pool_holds(values, dep) && values[dep.handle - 1] == 0
}

/// Whether a barrier that waits for all of `deps` may be passed: every one
/// of them that refers to a signal among `values` has reached zero.
pub open spec fn spec_barrier_and_met(deps: Seq<SignalRef>, values: Seq<i64>) -> bool {
    forall|i: int|
        0 <= i < deps.len() && spec_pool_holds(values, #[trigger] deps[i]) ==> spec_dep_at_zero(
            deps[i],
            values,
        )
}

/// Whether a barrier that waits for any of `deps` may be passed: one of
/// them refers to a signal among `values` that has reached zero.
pub open spec fn spec_barrier_or_met(deps: Seq<SignalRef>, values: Seq<i64>) -> bool {
    exists|i: int| 0 <= i < deps.len() && spec_dep_at_zero(#[trigger] deps[i], values)
}

impl BarrierBody {
    /// Whether a barrier that waits for all of its dependency signals may
    /// be passed: each of them that refers to a signal of the pool has
    /// reached zero.
    pub fn and_met(&self, signals: &SignalPool) -> (met: bool)
        ensures
            met == spec_barrier_and_met(self.dep_signal@, signals@),
    {
        let mut i: usize = 0;
        while i < 5
            invariant
                i <= 5,
                forall|j: int|
                    0 <= j < i && spec_pool_holds(signals@, #[trigger] self.dep_signal@[j])
                        ==> spec_dep_at_zero(self.dep_signal@[j], signals@),
            decreases 5 - i,
        {
            match signals.load(self.dep_signal[i], MemoryOrder::Acquire) {
                Some(value) => {
                    if value != 0 {
                        return false;
                    }
                },
                None => {},
            }
            i = i + 1;
        }
        true
    }

    /// Whether a barrier that waits for any of its dependency signals may
    /// be passed: one of them refers to a signal of the pool that has
    /// reached zero.
    pub fn or_met(&self, signals: &SignalPool) -> (met: bool)
        ensures
            met == spec_barrier_or_met(self.dep_signal@, signals@),
    {
        let mut i: usize = 0;
        while i < 5
            invariant
                i <= 5,
                forall|j: int| 0 <= j < i ==> !spec_dep_at_zero(#[trigger] self.dep_signal@[j], signals@),
            decreases 5 - i,
        {
            match signals.load(self.dep_signal[i], MemoryOrder::Acquire) {
                Some(value) => {
                    if value == 0 {
                        return true;
                    }
                },
                None => {},
            }
            i = i + 1;
        }
        false
    }
}

/// Whether the barrier in a slot may be passed, given the values of the
/// signals: for a barrier that waits for all of its dependencies and for
/// one that waits for any of them. A slot that holds no barrier has no
/// answer.
pub open spec fn spec_barrier_met(packet: Packet, values: Seq<i64>) -> Option<bool> {
    match packet.body {
        PacketBody::Barrier(body) => if packet.spec_packet_type() == Some(PacketType::BarrierAnd) {
            Some(spec_barrier_and_met(body.dep_signal@, values))
        } else if packet.spec_packet_type() == Some(PacketType::BarrierOr) {
            Some(spec_barrier_or_met(body.dep_signal@, values))
        } else {
            None
        },
        _ => None,
    }
}

impl Packet {
    /// Whether the barrier that this slot holds may be passed, so that the
    /// packets behind it may start. `None` where the slot holds no
    /// barrier.
    pub fn barrier_met(&self, signals: &SignalPool) -> (met: Option<bool>)
        ensures
            met == spec_barrier_met(*self, signals@),
    {
        match &self.body {
            PacketBody::Barrier(body) => match self.packet_type() {
                Some(PacketType::BarrierAnd) => Some(body.and_met(signals)),
                Some(PacketType::BarrierOr) => Some(body.or_met(signals)),
                _ => None,
            },
            _ => None,
        }
    }
}

/// A barrier that waits for all of its dependencies is held back by each
/// of them that has not reached zero.
pub proof fn lemma_barrier_and_waits_for_each(deps: Seq<SignalRef>, values: Seq<i64>, i: int)
    requires
        0 <= i < deps.len(),
        spec_pool_holds(values, deps[i]),
        values[deps[i].handle - 1] != 0,
    ensures
        !spec_barrier_and_met(deps, values),
{
}

} // verus!
