//! The 64 bytes of a slot, as eight 64-bit words in the order of memory.
//! Within a word the field at the lower address takes the lower bits.

use vstd::prelude::*;
use crate::header::PacketType;
use crate::packet::{AgentDispatchBody, BarrierBody, KernelDispatchBody, Packet, PacketBody};
use crate::signal::SignalRef;

verus! {

/// The word that holds a 32-bit field below two 16-bit fields.
pub open spec fn spec_pack_32_16_16(low: u32, mid: u16, high: u16) -> u64 {
    (low + 0x1_0000_0000 * mid + 0x1_0000_0000_0000 * high) as u64
}

/// The word that holds two 16-bit fields below a 32-bit field.
pub open spec fn spec_pack_16_16_32(low: u16, mid: u16, high: u32) -> u64 {
    (low + 0x1_0000 * mid + 0x1_0000_0000 * high) as u64
}

/// The word that holds a 32-bit field below another.
pub open spec fn spec_pack_32_32(low: u32, high: u32) -> u64 {
    (low + 0x1_0000_0000 * high) as u64
}

/// The eight words of a slot.
///
/// Every slot: the header and the setup field in bytes 0 to 4, the
/// completion signal in bytes 56 to 64, and zero in bytes 48 to 56.
///
/// A kernel dispatch: the workgroup sizes in bytes 4 to 10, the grid sizes
/// in bytes 12 to 24, the private and group segment sizes in bytes 24 to
/// 32, the kernel object in bytes 32 to 40 and the address of the kernel
/// arguments in bytes 40 to 48.
///
/// A barrier: the five dependency signals in bytes 8 to 48.
///
/// An agent dispatch: the return address in bytes 8 to 16 and the four
/// arguments in bytes 16 to 48.
///
/// What is not named is zero.
pub open spec fn spec_words(packet: Packet) -> Seq<u64> {
    match packet.body {
        PacketBody::Vacant => seq![packet.head as u64, 0, 0, 0, 0, 0, 0, 0],
        PacketBody::KernelDispatch(body) => seq![
            spec_pack_32_16_16(packet.head, body.workgroup_size_x, body.workgroup_size_y),
            spec_pack_16_16_32(body.workgroup_size_z, 0, body.grid_size_x),
            spec_pack_32_32(body.grid_size_y, body.grid_size_z),
            spec_pack_32_32(body.private_segment_size, body.group_segment_size),
            body.kernel_object,
            body.kernarg_address,
            0,
            body.completion_signal.handle,
        ],
        PacketBody::Barrier(body) => seq![
            packet.head as u64,
            body.dep_signal@[0].handle,
            body.dep_signal@[1].handle,
            body.dep_signal@[2].handle,
            body.dep_signal@[3].handle,
            body.dep_signal@[4].handle,
            0,
            body.completion_signal.handle,
        ],
        PacketBody::AgentDispatch(body) => seq![
            packet.head as u64,
            body.return_address,
            body.arg@[0],
            body.arg@[1],
            body.arg@[2],
            body.arg@[3],
            0,
            body.completion_signal.handle,
        ],
    }
}

/// The slot that eight words are read as: the type in the header says
/// what the body is, and a header of another type has no body.
pub open spec fn spec_from_words(words: Seq<u64>) -> Packet {
    let head = (words[0] % 0x1_0000_0000) as u32;
    let completion_signal = SignalRef { handle: words[7] };
    let ty = PacketType::spec_from_code((head % 256) as u16);
    Packet {
        head,
        body: if ty == Some(PacketType::KernelDispatch) {
            PacketBody::KernelDispatch(
                KernelDispatchBody {
                    workgroup_size_x: ((words[0] / 0x1_0000_0000) % 0x1_0000) as u16,
                    workgroup_size_y: (words[0] / 0x1_0000_0000_0000) as u16,
                    workgroup_size_z: (words[1] % 0x1_0000) as u16,
                    grid_size_x: (words[1] / 0x1_0000_0000) as u32,
                    grid_size_y: (words[2] % 0x1_0000_0000) as u32,
                    grid_size_z: (words[2] / 0x1_0000_0000) as u32,
                    private_segment_size: (words[3] % 0x1_0000_0000) as u32,
                    group_segment_size: (words[3] / 0x1_0000_0000) as u32,
                    kernel_object: words[4],
                    kernarg_address: words[5],
                    completion_signal,
                },
            )
        } else if ty == Some(PacketType::BarrierAnd) || ty == Some(PacketType::BarrierOr) {
            PacketBody::Barrier(
                BarrierBody {
                    dep_signal: [
                        SignalRef { handle: words[1] },
                        SignalRef { handle: words[2] },
                        SignalRef { handle: words[3] },
                        SignalRef { handle: words[4] },
                        SignalRef { handle: words[5] },
                    ],
                    completion_signal,
                },
            )
        } else if ty == Some(PacketType::AgentDispatch) {
            PacketBody::AgentDispatch(
                AgentDispatchBody {
                    return_address: words[1],
                    arg: [words[2], words[3], words[4], words[5]],
                    completion_signal,
                },
            )
        } else {
            PacketBody::Vacant
        },
    }
}

/// Whether the body of a slot is of the kind that the type in its header
/// names: as it is from the time a packet is published to the time it is
/// retired.
pub open spec fn spec_is_published(packet: Packet) -> bool {
    match packet.body {
        PacketBody::Vacant => false,
        PacketBody::KernelDispatch(_) => packet.spec_packet_type() == Some(
            PacketType::KernelDispatch,
        ),
        PacketBody::Barrier(_) => packet.spec_packet_type() == Some(PacketType::BarrierAnd)
            || packet.spec_packet_type() == Some(PacketType::BarrierOr),
        PacketBody::AgentDispatch(_) => packet.spec_packet_type() == Some(
            PacketType::AgentDispatch,
        ),
    }
}

fn pack_32_16_16(low: u32, mid: u16, high: u16) -> (word: u64)
    ensures
        word == spec_pack_32_16_16(low, mid, high),
        word % 0x1_0000_0000 == low,
        (word / 0x1_0000_0000) % 0x1_0000 == mid,
        word / 0x1_0000_0000_0000 == high,
{
    let l: u64 = low as u64;
    let m: u64 = mid as u64;
    let h: u64 = high as u64;
    assert((l | (m << 32u64)) | (h << 48u64) == l + 0x1_0000_0000 * m + 0x1_0000_0000_0000 * h)
        by (bit_vector)
        requires
            l < 0x1_0000_0000 && m < 0x1_0000 && h < 0x1_0000,
    ;
    l | (m << 32) | (h << 48)
}

fn pack_16_16_32(low: u16, mid: u16, high: u32) -> (word: u64)
    ensures
        word == spec_pack_16_16_32(low, mid, high),
        word % 0x1_0000 == low,
        word / 0x1_0000_0000 == high,
{
    let l: u64 = low as u64;
    let m: u64 = mid as u64;
    let h: u64 = high as u64;
    assert((l | (m << 16u64)) | (h << 32u64) == l + 0x1_0000 * m + 0x1_0000_0000 * h) by (bit_vector)
        requires
            l < 0x1_0000 && m < 0x1_0000 && h < 0x1_0000_0000,
    ;
    l | (m << 16) | (h << 32)
}

fn pack_32_32(low: u32, high: u32) -> (word: u64)
    ensures
        word == spec_pack_32_32(low, high),
        word % 0x1_0000_0000 == low,
        word / 0x1_0000_0000 == high,
{
    let l: u64 = low as u64;
    let h: u64 = high as u64;
    assert(l | (h << 32u64) == l + 0x1_0000_0000 * h) by (bit_vector)
        requires
            l < 0x1_0000_0000 && h < 0x1_0000_0000,
    ;
    l | (h << 32)
}

/// The parts of a word: the low 32 bits, the 16 bits above them, and the
/// high 16 bits.
fn unpack_32_16_16(word: u64) -> (parts: (u32, u16, u16))
    ensures
        parts.0 == word % 0x1_0000_0000,
        parts.1 == (word / 0x1_0000_0000) % 0x1_0000,
        parts.2 == word / 0x1_0000_0000_0000,
{
    assert(word & 0xffff_ffff == word % 0x1_0000_0000 && (word >> 32u64) & 0xffff == (word
        / 0x1_0000_0000) % 0x1_0000 && word >> 48u64 == word / 0x1_0000_0000_0000 && (word >> 48u64)
        < 0x1_0000) by (bit_vector);
    ((word & 0xffff_ffff) as u32, ((word >> 32) & 0xffff) as u16, (word >> 48) as u16)
}

/// The parts of a word: the low 32 bits and the high 32 bits.
fn unpack_32_32(word: u64) -> (parts: (u32, u32))
    ensures
        parts.0 == word % 0x1_0000_0000,
        parts.1 == word / 0x1_0000_0000,
{
    assert(word & 0xffff_ffff == word % 0x1_0000_0000 && word >> 32u64 == word / 0x1_0000_0000 && (
    word >> 32u64) < 0x1_0000_0000) by (bit_vector);
    ((word & 0xffff_ffff) as u32, (word >> 32) as u32)
}

impl Packet {
    /// The eight words that the slot is in memory.
    pub fn to_words(&self) -> (words: [u64; 8])
        ensures
            words@ == spec_words(*self),
    {
        let words: [u64; 8] = match &self.body {
            PacketBody::Vacant => [self.head as u64, 0, 0, 0, 0, 0, 0, 0],
            PacketBody::KernelDispatch(body) => [
                pack_32_16_16(self.head, body.workgroup_size_x, body.workgroup_size_y),
                pack_16_16_32(body.workgroup_size_z, 0, body.grid_size_x),
                pack_32_32(body.grid_size_y, body.grid_size_z),
                pack_32_32(body.private_segment_size, body.group_segment_size),
                body.kernel_object,
                body.kernarg_address,
                0,
                body.completion_signal.handle,
            ],
            PacketBody::Barrier(body) => [
                self.head as u64,
                body.dep_signal[0].handle,
                body.dep_signal[1].handle,
                body.dep_signal[2].handle,
                body.dep_signal[3].handle,
                body.dep_signal[4].handle,
                0,
                body.completion_signal.handle,
            ],
            PacketBody::AgentDispatch(body) => [
                self.head as u64,
                body.return_address,
                body.arg[0],
                body.arg[1],
                body.arg[2],
                body.arg[3],
                0,
                body.completion_signal.handle,
            ],
        };
        assert(words@ =~= spec_words(*self));
        words
    }

    /// Reads a slot off the eight words that it is in memory.
    pub fn from_words(words: &[u64; 8]) -> (packet: Packet)
        ensures
            packet == spec_from_words(words@),
    {
        let (head, wg_x, wg_y) = unpack_32_16_16(words[0]);
        let completion_signal = SignalRef { handle: words[7] };
        let probe = Packet { head, body: PacketBody::Vacant };
        let body = match probe.packet_type() {
            Some(PacketType::KernelDispatch) => {
                let (wg_z, _, _) = unpack_32_16_16(words[1]);
                let (_, grid_x) = unpack_32_32(words[1]);
                let (grid_y, grid_z) = unpack_32_32(words[2]);
                let (private, group) = unpack_32_32(words[3]);
                assert(words@[1] % 0x1_0000 == (words@[1] % 0x1_0000_0000) % 0x1_0000);
                PacketBody::KernelDispatch(
                    KernelDispatchBody {
                        workgroup_size_x: wg_x,
                        workgroup_size_y: wg_y,
                        workgroup_size_z: (wg_z % 0x1_0000) as u16,
                        grid_size_x: grid_x,
                        grid_size_y: grid_y,
                        grid_size_z: grid_z,
                        private_segment_size: private,
                        group_segment_size: group,
                        kernel_object: words[4],
                        kernarg_address: words[5],
                        completion_signal,
                    },
                )
            },
            Some(PacketType::BarrierAnd) | Some(PacketType::BarrierOr) => {
                let dep_signal = [
                    SignalRef { handle: words[1] },
                    SignalRef { handle: words[2] },
                    SignalRef { handle: words[3] },
                    SignalRef { handle: words[4] },
                    SignalRef { handle: words[5] },
                ];
                assert(dep_signal@ =~= spec_from_words(words@).body->Barrier_0.dep_signal@);
                PacketBody::Barrier(BarrierBody { dep_signal, completion_signal })
            },
            Some(PacketType::AgentDispatch) => {
                let arg = [words[2], words[3], words[4], words[5]];
                assert(arg@ =~= spec_from_words(words@).body->AgentDispatch_0.arg@);
                PacketBody::AgentDispatch(
                    AgentDispatchBody { return_address: words[1], arg, completion_signal },
                )
            },
            _ => PacketBody::Vacant,
        };
        Packet { head, body }
    }
}

/// The fields of a word come out of it as they were put in.
pub proof fn lemma_unpack_32_16_16(low: u32, mid: u16, high: u16)
    ensures
        spec_pack_32_16_16(low, mid, high) % 0x1_0000_0000 == low,
        (spec_pack_32_16_16(low, mid, high) / 0x1_0000_0000) % 0x1_0000 == mid,
        spec_pack_32_16_16(low, mid, high) / 0x1_0000_0000_0000 == high,
{
    let l: u64 = low as u64;
    let m: u64 = mid as u64;
    let h: u64 = high as u64;
    let word: u64 = (l + 0x1_0000_0000 * m + 0x1_0000_0000_0000 * h) as u64;
    assert(word == spec_pack_32_16_16(low, mid, high));
    assert(word % 0x1_0000_0000 == l && (word / 0x1_0000_0000) % 0x1_0000 == m && word
        / 0x1_0000_0000_0000 == h) by (bit_vector)
        requires
            l < 0x1_0000_0000 && m < 0x1_0000 && h < 0x1_0000,
            word == l + 0x1_0000_0000 * m + 0x1_0000_0000_0000 * h,
    ;
}

/// The fields of a word come out of it as they were put in.
pub proof fn lemma_unpack_16_16_32(low: u16, mid: u16, high: u32)
    ensures
        spec_pack_16_16_32(low, mid, high) % 0x1_0000 == low,
        (spec_pack_16_16_32(low, mid, high) / 0x1_0000) % 0x1_0000 == mid,
        spec_pack_16_16_32(low, mid, high) / 0x1_0000_0000 == high,
{
    let l: u64 = low as u64;
    let m: u64 = mid as u64;
    let h: u64 = high as u64;
    let word: u64 = (l + 0x1_0000 * m + 0x1_0000_0000 * h) as u64;
    assert(word == spec_pack_16_16_32(low, mid, high));
    assert(word % 0x1_0000 == l && (word / 0x1_0000) % 0x1_0000 == m && word / 0x1_0000_0000 == h)
        by (bit_vector)
        requires
            l < 0x1_0000 && m < 0x1_0000 && h < 0x1_0000_0000,
            word == l + 0x1_0000 * m + 0x1_0000_0000 * h,
    ;
}

/// The fields of a word come out of it as they were put in.
pub proof fn lemma_unpack_32_32(low: u32, high: u32)
    ensures
        spec_pack_32_32(low, high) % 0x1_0000_0000 == low,
        spec_pack_32_32(low, high) / 0x1_0000_0000 == high,
{
    let l: u64 = low as u64;
    let h: u64 = high as u64;
    let word: u64 = (l + 0x1_0000_0000 * h) as u64;
    assert(word == spec_pack_32_32(low, high));
    assert(word % 0x1_0000_0000 == l && word / 0x1_0000_0000 == h) by (bit_vector)
        requires
            l < 0x1_0000_0000 && h < 0x1_0000_0000,
            word == l + 0x1_0000_0000 * h,
    ;
}

/// A slot that holds a published packet is read off its words as it was
/// written.
pub proof fn lemma_words_round_trip(packet: Packet)
    requires
        spec_is_published(packet),
    ensures
        spec_words(packet).len() == 8,
        spec_from_words(spec_words(packet)) == packet,
{
    let words = spec_words(packet);
    let back = spec_from_words(words);
    let head = packet.head;
    assert((head % 0x1_0000) % 256 == head % 256) by (bit_vector);
    assert(packet.spec_packet_type() == PacketType::spec_from_code((head % 256) as u16));
    match packet.body {
        PacketBody::Vacant => {},
        PacketBody::KernelDispatch(body) => {
            lemma_unpack_32_16_16(packet.head, body.workgroup_size_x, body.workgroup_size_y);
            lemma_unpack_16_16_32(body.workgroup_size_z, 0, body.grid_size_x);
            lemma_unpack_32_32(body.grid_size_y, body.grid_size_z);
            lemma_unpack_32_32(body.private_segment_size, body.group_segment_size);
            assert(back.head == packet.head);
            assert(back.body == packet.body);
        },
        PacketBody::Barrier(body) => {
            assert(back.head == packet.head);
            assert(back.body is Barrier);
            assert(back.body->Barrier_0.dep_signal@ =~= body.dep_signal@);
            assert(back.body->Barrier_0.dep_signal == body.dep_signal);
            assert(back.body == packet.body);
        },
        PacketBody::AgentDispatch(body) => {
            assert(back.head == packet.head);
            assert(back.body is AgentDispatch);
            assert(back.body->AgentDispatch_0.arg@ =~= body.arg@);
            assert(back.body->AgentDispatch_0.arg == body.arg);
            assert(back.body == packet.body);
        },
    }
}

} // verus!
