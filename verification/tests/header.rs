use hsa_rt::header::{
    head_word, header, scope_from_enum, scope_to_enum, split_head_word, FenceScope, PacketHeader,
    PacketType,
};
use hsa_rt::packet::{invalidate, packet_store_rel, Packet, PacketBody};

const TYPES: [PacketType; 6] = [
    PacketType::VendorSpecific,
    PacketType::Invalid,
    PacketType::KernelDispatch,
    PacketType::BarrierAnd,
    PacketType::AgentDispatch,
    PacketType::BarrierOr,
];

const SCOPES: [FenceScope; 3] = [FenceScope::NoFence, FenceScope::Agent, FenceScope::System];

#[test]
fn header_bits() {
    assert_eq!(header(PacketType::Invalid, &FenceScope::NoFence, &FenceScope::NoFence, false), 1);
    assert_eq!(
        header(PacketType::KernelDispatch, &FenceScope::NoFence, &FenceScope::NoFence, false),
        2
    );
    assert_eq!(
        header(PacketType::KernelDispatch, &FenceScope::NoFence, &FenceScope::NoFence, true),
        2 | (1 << 8)
    );
    assert_eq!(
        header(PacketType::KernelDispatch, &FenceScope::Agent, &FenceScope::NoFence, false),
        2 | (1 << 9)
    );
    assert_eq!(
        header(PacketType::KernelDispatch, &FenceScope::NoFence, &FenceScope::Agent, false),
        2 | (1 << 11)
    );
    assert_eq!(
        header(PacketType::KernelDispatch, &FenceScope::System, &FenceScope::System, true),
        5378
    );
    assert_eq!(header(PacketType::BarrierOr, &FenceScope::System, &FenceScope::Agent, true), 3333);
    assert_eq!(header(PacketType::Invalid, &FenceScope::System, &FenceScope::System, false), 5121);
}

#[test]
fn type_and_scope_numbers() {
    let codes: Vec<u16> = TYPES.iter().map(|ty| ty.code()).collect();
    assert_eq!(codes, vec![0, 1, 2, 3, 4, 5]);
    for ty in TYPES {
        assert_eq!(PacketType::from_code(ty.code()), Some(ty));
    }
    assert_eq!(PacketType::from_code(6), None);
    assert_eq!(PacketType::from_code(255), None);
    assert_eq!(scope_to_enum(&FenceScope::NoFence), 0);
    assert_eq!(scope_to_enum(&FenceScope::Agent), 1);
    assert_eq!(scope_to_enum(&FenceScope::System), 2);
    for scope in SCOPES {
        assert_eq!(scope_from_enum(scope_to_enum(&scope)), Some(scope));
    }
    assert_eq!(scope_from_enum(3), None);
    assert_eq!(FenceScope::default(), FenceScope::System);
}

#[test]
fn decode_gives_back_what_was_encoded() {
    for ty in TYPES {
        for acquire in SCOPES {
            for release in SCOPES {
                for ordered in [false, true] {
                    let fields = PacketHeader { ty, acquire, release, ordered };
                    let raw = fields.encode();
                    assert_eq!(raw, header(ty, &acquire, &release, ordered));
                    assert_eq!(PacketHeader::decode(raw), Some(fields));
                    // The three bits above the release scope are not looked at.
                    assert_eq!(PacketHeader::decode(raw | 0xe000), Some(fields));
                }
            }
        }
    }
}

#[test]
fn decode_refuses_unknown_numbers() {
    assert_eq!(PacketHeader::decode(6), None);
    assert_eq!(PacketHeader::decode(2 | (3 << 9)), None);
    assert_eq!(PacketHeader::decode(2 | (3 << 11)), None);
    assert_eq!(PacketHeader::decode(0xffff), None);
    assert_eq!(
        PacketHeader::decode(0),
        Some(PacketHeader {
            ty: PacketType::VendorSpecific,
            acquire: FenceScope::NoFence,
            release: FenceScope::NoFence,
            ordered: false,
        })
    );
}

#[test]
fn head_word_holds_header_below_setup() {
    assert_eq!(head_word(0x1234, 0xabcd), 0xabcd_1234);
    assert_eq!(head_word(0, 0), 0);
    assert_eq!(head_word(0xffff, 0), 0xffff);
    assert_eq!(head_word(0, 0xffff), 0xffff_0000);
    assert_eq!(split_head_word(0xabcd_1234), (0x1234, 0xabcd));
    assert_eq!(split_head_word(u32::MAX), (0xffff, 0xffff));
}

#[test]
fn publishing_leaves_the_body_alone() {
    let mut slot = Packet::vacant();
    assert_eq!(slot.head, 1);
    assert_eq!(slot.body, PacketBody::Vacant);
    assert!(slot.is_invalid());
    packet_store_rel(&mut slot, 5378, 3);
    assert_eq!(slot.head, 5378 | (3 << 16));
    assert_eq!(slot.header(), 5378);
    assert_eq!(slot.setup(), 3);
    assert_eq!(slot.body, PacketBody::Vacant);
    assert_eq!(slot.packet_type(), Some(PacketType::KernelDispatch));
    assert!(!slot.is_invalid());
    invalidate(&mut slot);
    assert_eq!(slot.head, 5121 | (3 << 16));
    assert!(slot.is_invalid());
    invalidate(&mut slot);
    assert_eq!(slot.head, 5121 | (3 << 16));
}
