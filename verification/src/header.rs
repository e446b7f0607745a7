//! The 16-bit packet header and the 32-bit word it shares with the setup field.

use vstd::prelude::*;

verus! {

/// Bit position of the packet type field (eight bits wide).
pub const HEADER_TYPE_SHIFT: u16 = 0;

/// Bit position of the ordering ("barrier") bit.
pub const HEADER_BARRIER_SHIFT: u16 = 8;

/// Bit position of the acquire fence scope (two bits wide).
pub const HEADER_ACQUIRE_SHIFT: u16 = 9;

/// Bit position of the release fence scope (two bits wide).
pub const HEADER_RELEASE_SHIFT: u16 = 11;

/// Bit position, inside the setup field of a kernel dispatch, of the number
/// of grid dimensions (two bits wide).
pub const SETUP_DIMENSIONS_SHIFT: u16 = 0;

/// What a ring slot holds, as told by the low byte of its header.
#[derive(Clone, Copy, Debug, PartialEq, Eq, Structural, Hash)]
pub enum PacketType {
    VendorSpecific,
    Invalid,
    KernelDispatch,
    BarrierAnd,
    AgentDispatch,
    BarrierOr,
}

/// The memory-visibility domain that a packet acquires before it runs or
/// releases after it has run.
#[derive(Clone, Copy, Debug, Eq, PartialEq, Structural, Ord, PartialOrd, Hash)]
pub enum FenceScope {
    NoFence,
    Agent,
    System,
}

impl Default for FenceScope {
    fn default() -> (scope: Self)
        ensures
            scope == FenceScope::System,
    {
        FenceScope::System
    }
}

impl PacketType {
    /// The number that stands for this type on the wire.
    pub open spec fn spec_code(self) -> u16 {
        match self {
            PacketType::VendorSpecific => 0,
            PacketType::Invalid => 1,
            PacketType::KernelDispatch => 2,
            PacketType::BarrierAnd => 3,
            PacketType::AgentDispatch => 4,
            PacketType::BarrierOr => 5,
        }
    }

    /// The type that a wire number stands for, if any.
    pub open spec fn spec_from_code(code: u16) -> Option<PacketType> {
        if code == 0 {
            Some(PacketType::VendorSpecific)
        } else if code == 1 {
            Some(PacketType::Invalid)
        } else if code == 2 {
            Some(PacketType::KernelDispatch)
        } else if code == 3 {
            Some(PacketType::BarrierAnd)
        } else if code == 4 {
            Some(PacketType::AgentDispatch)
        } else if code == 5 {
            Some(PacketType::BarrierOr)
        } else {
            None
        }
    }

    #[verifier::when_used_as_spec(spec_code)]
    pub fn code(self) -> (code: u16)
        ensures
            code == self.spec_code(),
    {
        match self {
            PacketType::VendorSpecific => 0,
            PacketType::Invalid => 1,
            PacketType::KernelDispatch => 2,
            PacketType::BarrierAnd => 3,
            PacketType::AgentDispatch => 4,
            PacketType::BarrierOr => 5,
        }
    }

    pub fn from_code(code: u16) -> (ty: Option<PacketType>)
        ensures
            ty == Self::spec_from_code(code),
    {
        if code == 0 {
            Some(PacketType::VendorSpecific)
        } else if code == 1 {
            Some(PacketType::Invalid)
        } else if code == 2 {
            Some(PacketType::KernelDispatch)
        } else if code == 3 {
            Some(PacketType::BarrierAnd)
        } else if code == 4 {
            Some(PacketType::AgentDispatch)
        } else if code == 5 {
            Some(PacketType::BarrierOr)
        } else {
            None
        }
    }
}

/// The number that stands for a fence scope on the wire.
pub open spec fn spec_scope_to_enum(scope: FenceScope) -> u16 {
    match scope {
        FenceScope::NoFence => 0,
        FenceScope::Agent => 1,
        FenceScope::System => 2,
    }
}

/// The fence scope that a wire number stands for, if any.
pub open spec fn spec_scope_from_enum(code: u16) -> Option<FenceScope> {
    if code == 0 {
        Some(FenceScope::NoFence)
    } else if code == 1 {
        Some(FenceScope::Agent)
    } else if code == 2 {
        Some(FenceScope::System)
    } else {
        None
    }
}

/// The wire number of a fence scope.
pub fn scope_to_enum(scope: &FenceScope) -> (code: u16)
    ensures
        code == spec_scope_to_enum(*scope),
{
    match scope {
        FenceScope::NoFence => 0,
        FenceScope::System => 2,
        FenceScope::Agent => 1,
    }
}

/// The fence scope of a wire number, if it stands for one.
pub fn scope_from_enum(code: u16) -> (scope: Option<FenceScope>)
    ensures
        scope == spec_scope_from_enum(code),
{
    if code == 0 {
        Some(FenceScope::NoFence)
    } else if code == 1 {
        Some(FenceScope::Agent)
    } else if code == 2 {
        Some(FenceScope::System)
    } else {
        None
    }
}

/// The four fields that a header carries.
#[derive(Clone, Copy, Debug, PartialEq, Eq, Structural)]
pub struct PacketHeader {
    pub ty: PacketType,
    pub acquire: FenceScope,
    pub release: FenceScope,
    pub ordered: bool,
}

/// The header as a number: the type in bits 0..8, the ordering bit at bit 8,
/// the acquire scope in bits 9..11 and the release scope in bits 11..13.
pub open spec fn spec_header(
    ty: PacketType,
    acquire: FenceScope,
    release: FenceScope,
    ordered: bool,
) -> u16 {
    (ty.spec_code() + (if ordered { 256int } else { 0int }) + 512 * spec_scope_to_enum(acquire) + 2048
        * spec_scope_to_enum(release)) as u16
}

/// The fields of a header number; `None` where the type or a scope is a
/// number that stands for nothing. Bits 13..16 are not looked at.
pub open spec fn spec_decode(raw: u16) -> Option<PacketHeader> {
    let ty = PacketType::spec_from_code(raw % 256);
    let acquire = spec_scope_from_enum((raw / 512) % 4);
    let release = spec_scope_from_enum((raw / 2048) % 4);
    if ty is Some && acquire is Some && release is Some {
        Some(
            PacketHeader {
                ty: ty->0,
                acquire: acquire->0,
                release: release->0,
                ordered: (raw / 256) % 2 == 1,
            },
        )
    } else {
        None
    }
}

/// Packs the four header fields into the 16-bit header.
pub fn header(ty: PacketType, scaquire: &FenceScope, screlease: &FenceScope, ordered: bool) -> (raw:
    u16)
    ensures
        raw == spec_header(ty, *scaquire, *screlease, ordered),
        spec_decode(raw) == Some(
            PacketHeader { ty, acquire: *scaquire, release: *screlease, ordered },
        ),
{
    let t: u16 = ty.code();
    let a: u16 = scope_to_enum(scaquire);
    let r: u16 = scope_to_enum(screlease);
    let b: u16 = if ordered { 1 } else { 0 };
    assert(t < 6 && a < 3 && r < 3 && b < 2);
    assert((((t << 0u16) | (a << 9u16)) | (r << 11u16)) | (b << 8u16) == t + 512 * a + 2048 * r + 256 * b)
        by (bit_vector)
        requires
            t < 6 && a < 3 && r < 3 && b < 2,
    ;
    let mut raw: u16 = t << HEADER_TYPE_SHIFT;
    raw = raw | (a << HEADER_ACQUIRE_SHIFT);
    raw = raw | (r << HEADER_RELEASE_SHIFT);
    if ordered {
        raw = raw | (1u16 << HEADER_BARRIER_SHIFT);
    } else {
        assert(raw | (0u16 << 8u16) == raw) by (bit_vector);
    }
    proof {
        lemma_decode_header(ty, *scaquire, *screlease, ordered);
    }
    raw
}

impl PacketHeader {
    pub open spec fn spec_encode(self) -> u16 {
        spec_header(self.ty, self.acquire, self.release, self.ordered)
    }

    /// The header number of these fields.
    pub fn encode(&self) -> (raw: u16)
        ensures
            raw == self.spec_encode(),
            spec_decode(raw) == Some(*self),
    {
        header(self.ty, &self.acquire, &self.release, self.ordered)
    }

    /// The fields of a header number, where its type and scopes are known.
    pub fn decode(raw: u16) -> (fields: Option<PacketHeader>)
        ensures
            fields == spec_decode(raw),
    {
        assert(raw & 0xff == raw % 256 && (raw >> 9u16) & 3 == (raw / 512) % 4 && (raw >> 11u16) & 3
            == (raw / 2048) % 4 && (raw >> 8u16) & 1 == (raw / 256) % 2) by (bit_vector);
        let ty = PacketType::from_code(raw & 0xff);
        let acquire = scope_from_enum((raw >> HEADER_ACQUIRE_SHIFT) & 3);
        let release = scope_from_enum((raw >> HEADER_RELEASE_SHIFT) & 3);
        let ordered = (raw >> HEADER_BARRIER_SHIFT) & 1 == 1;
        match (ty, acquire, release) {
            (Some(ty), Some(acquire), Some(release)) => Some(
                PacketHeader { ty, acquire, release, ordered },
            ),
            _ => None,
        }
    }
}

/// Decoding gives back the four fields that a header was packed from.
pub proof fn lemma_decode_header(
    ty: PacketType,
    acquire: FenceScope,
    release: FenceScope,
    ordered: bool,
)
    ensures
        spec_decode(spec_header(ty, acquire, release, ordered)) == Some(
            PacketHeader { ty, acquire, release, ordered },
        ),
{
    let t = ty.spec_code() as int;
    let a = spec_scope_to_enum(acquire) as int;
    let r = spec_scope_to_enum(release) as int;
    let b = if ordered { 1int } else { 0int };
    let raw = t + 256 * b + 512 * a + 2048 * r;
    assert(0 <= raw < 65536);
    assert(raw % 256 == t);
    assert((raw / 256) % 2 == b);
    assert((raw / 512) % 4 == a);
    assert((raw / 2048) % 4 == r);
}

/// Two headers are the same number only if they were packed from the same
/// fields.
pub proof fn lemma_header_injective(a: PacketHeader, b: PacketHeader)
    requires
        a.spec_encode() == b.spec_encode(),
    ensures
        a == b,
{
    lemma_decode_header(a.ty, a.acquire, a.release, a.ordered);
    lemma_decode_header(b.ty, b.acquire, b.release, b.ordered);
}

/// The 32-bit word that opens a slot: the header in the low half, the setup
/// field in the high half.
pub open spec fn spec_head_word(header: u16, rest: u16) -> u32 {
    (header + 65536 * rest) as u32
}

/// The header half of a slot's first word.
pub open spec fn spec_word_header(word: u32) -> u16 {
    (word % 65536) as u16
}

/// The setup half of a slot's first word.
pub open spec fn spec_word_rest(word: u32) -> u16 {
    (word / 65536) as u16
}

/// Joins a header and a setup field into the word that is stored in one
/// write.
pub fn head_word(header: u16, rest: u16) -> (word: u32)
    ensures
        word == spec_head_word(header, rest),
        spec_word_header(word) == header,
        spec_word_rest(word) == rest,
{
    let h: u32 = header as u32;
    let r: u32 = rest as u32;
    assert(h | (r << 16u32) == h + 65536 * r) by (bit_vector)
        requires
            h < 65536 && r < 65536,
    ;
    h | (r << 16)
}

/// Splits a slot's first word into its header and its setup field.
pub fn split_head_word(word: u32) -> (parts: (u16, u16))
    ensures
        parts.0 == spec_word_header(word),
        parts.1 == spec_word_rest(word),
        spec_head_word(parts.0, parts.1) == word,
{
    assert(word & 0xffff == word % 65536 && word >> 16u32 == word / 65536) by (bit_vector);
    ((word & 0xffff) as u16, (word >> 16) as u16)
}

} // verus!
