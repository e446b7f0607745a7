use hsa_rt::codegen::{
    find_metadata_note, has_elf_magic, metadata_note_of, CodegenDesc, CodegenEntry, Codegenner, ElfNote, Error,
    FnAttrs, KernelDesc, KernelMetadata, NT_AMDGPU_METADATA,
};
use hsa_rt::meta::{Lit, MetaItem, MetaItemKind, NestedMetaItem, Span};

fn note(n_type: u32, name: &[u8], desc: &[u8]) -> Vec<u8> {
    let mut bytes = Vec::new();
    bytes.extend_from_slice(&(name.len() as u32 + 1).to_le_bytes());
    bytes.extend_from_slice(&(desc.len() as u32).to_le_bytes());
    bytes.extend_from_slice(&n_type.to_le_bytes());
    bytes.extend_from_slice(name);
    bytes.push(0);
    while bytes.len() % 4 != 0 {
        bytes.push(0);
    }
    bytes.extend_from_slice(desc);
    while bytes.len() % 4 != 0 {
        bytes.push(0);
    }
    bytes
}

fn section_header(name: u32, sh_type: u32, offset: u64, size: u64, align: u64) -> Vec<u8> {
    let mut bytes = Vec::new();
    bytes.extend_from_slice(&name.to_le_bytes());
    bytes.extend_from_slice(&sh_type.to_le_bytes());
    bytes.extend_from_slice(&0u64.to_le_bytes());
    bytes.extend_from_slice(&0u64.to_le_bytes());
    bytes.extend_from_slice(&offset.to_le_bytes());
    bytes.extend_from_slice(&size.to_le_bytes());
    bytes.extend_from_slice(&0u32.to_le_bytes());
    bytes.extend_from_slice(&0u32.to_le_bytes());
    bytes.extend_from_slice(&align.to_le_bytes());
    bytes.extend_from_slice(&0u64.to_le_bytes());
    bytes
}

/// A 64-bit little-endian ELF image with one note section for each of
/// `sections`, given as the section's bytes and its alignment.
fn elf(sections: &[(Vec<u8>, u64)]) -> Vec<u8> {
    let strtab = b"\0.note\0.shstrtab\0";
    let mut body = Vec::new();
    let mut headers = section_header(0, 0, 0, 0, 0);
    for (bytes, align) in sections {
        headers.extend(section_header(1, 7, 64 + body.len() as u64, bytes.len() as u64, *align));
        body.extend_from_slice(bytes);
    }
    headers.extend(section_header(7, 3, 64 + body.len() as u64, strtab.len() as u64, 1));
    body.extend_from_slice(strtab);
    while body.len() % 8 != 0 {
        body.push(0);
    }
    let mut image = vec![0x7f, b'E', b'L', b'F', 2, 1, 1, 0, 0, 0, 0, 0, 0, 0, 0, 0];
    image.extend_from_slice(&2u16.to_le_bytes());
    image.extend_from_slice(&224u16.to_le_bytes());
    image.extend_from_slice(&1u32.to_le_bytes());
    image.extend_from_slice(&0u64.to_le_bytes());
    image.extend_from_slice(&0u64.to_le_bytes());
    image.extend_from_slice(&(64 + body.len() as u64).to_le_bytes());
    image.extend_from_slice(&0u32.to_le_bytes());
    image.extend_from_slice(&64u16.to_le_bytes());
    image.extend_from_slice(&56u16.to_le_bytes());
    image.extend_from_slice(&0u16.to_le_bytes());
    image.extend_from_slice(&64u16.to_le_bytes());
    image.extend_from_slice(&(sections.len() as u16 + 2).to_le_bytes());
    image.extend_from_slice(&(sections.len() as u16 + 1).to_le_bytes());
    assert_eq!(image.len(), 64);
    image.extend(body);
    image.extend(headers);
    image
}

#[test]
fn metadata_note_is_found_in_an_elf_image() {
    let mut notes = note(1, b"GNU", &[9, 9, 9, 9]);
    notes.extend(note(NT_AMDGPU_METADATA, b"AMDGPU", &[0x81, 0xa1, 0x61, 0x01, 0x05]));
    notes.extend(note(NT_AMDGPU_METADATA, b"AMDGPU", &[0xff]));
    assert_eq!(find_metadata_note(&elf(&[(notes, 4)])), Ok(vec![0x81, 0xa1, 0x61, 0x01, 0x05]));
}

#[test]
fn metadata_note_is_found_in_a_later_section() {
    let first = note(3, b"GNU", &[1, 2, 3, 4, 5, 6, 7, 8]);
    let second = note(NT_AMDGPU_METADATA, b"AMDGPU", &[7, 7]);
    assert_eq!(find_metadata_note(&elf(&[(first, 4), (second, 4)])), Ok(vec![7, 7]));
}

#[test]
fn image_without_metadata_note() {
    assert_eq!(find_metadata_note(&elf(&[])), Err(Error::MissingKernelMetadataNote));
    let notes = note(1, b"GNU", &[9, 9, 9, 9]);
    assert_eq!(
        find_metadata_note(&elf(&[(notes, 4)])),
        Err(Error::MissingKernelMetadataNote)
    );
}

#[test]
fn note_that_cannot_be_parsed_before_the_metadata() {
    let bad = note(1, b"GNU", &[9, 9, 9, 9]);
    let good = note(NT_AMDGPU_METADATA, b"AMDGPU", &[7, 7]);
    assert_eq!(
        find_metadata_note(&elf(&[(bad.clone(), 16), (good.clone(), 4)])),
        Err(Error::MalformedObject)
    );
    assert_eq!(find_metadata_note(&elf(&[(good, 4), (bad, 16)])), Ok(vec![7, 7]));
}

#[test]
fn bytes_that_are_no_elf_image() {
    assert_eq!(find_metadata_note(&[]), Err(Error::NotAnElf));
    assert_eq!(find_metadata_note(b"short"), Err(Error::NotAnElf));
    assert_eq!(find_metadata_note(&[0x7f, b'E', b'L']), Err(Error::NotAnElf));
    assert_eq!(find_metadata_note(&[0u8; 64]), Err(Error::NotAnElf));
    assert_eq!(find_metadata_note(b"no object at all"), Err(Error::NotAnElf));
    assert_eq!(find_metadata_note(b"!<arch>\n0123456789"), Err(Error::NotAnElf));
    // The image of another format, which is not handed to a parser: a
    // 64-bit Mach-O header with a segment and an entry point.
    let mut mach = vec![0xcf, 0xfa, 0xed, 0xfe];
    mach.resize(128, 0);
    assert_eq!(find_metadata_note(&mach), Err(Error::NotAnElf));
    assert!(!has_elf_magic(&mach));
    assert!(has_elf_magic(&elf(&[])));
    assert!(has_elf_magic(&[0x7f, b'E', b'L', b'F']));
}

#[test]
fn elf_images_that_cannot_be_parsed() {
    assert_eq!(find_metadata_note(&[0x7f, b'E', b'L', b'F']), Err(Error::MalformedObject));
    let mut truncated = elf(&[]);
    truncated.truncate(40);
    assert_eq!(find_metadata_note(&truncated), Err(Error::MalformedObject));
    let mut class = elf(&[]);
    class[4] = 9;
    assert_eq!(find_metadata_note(&class), Err(Error::MalformedObject));
}

#[test]
fn first_metadata_note_decides() {
    let note = |n_type, desc: &[u8]| Some(ElfNote { n_type, desc: desc.to_vec() });
    assert_eq!(metadata_note_of(vec![]), Err(Error::MissingKernelMetadataNote));
    assert_eq!(metadata_note_of(vec![note(1, &[1])]), Err(Error::MissingKernelMetadataNote));
    assert_eq!(metadata_note_of(vec![note(1, &[1]), note(32, &[2]), note(32, &[3])]), Ok(vec![2]));
    assert_eq!(metadata_note_of(vec![note(32, &[2]), None]), Ok(vec![2]));
    assert_eq!(metadata_note_of(vec![note(1, &[1]), None, note(32, &[2])]), Err(Error::MalformedObject));
    assert_eq!(metadata_note_of(vec![None]), Err(Error::MalformedObject));
    assert_eq!(metadata_note_of(vec![note(32, &[])]), Ok(vec![]));
}

fn kernel(symbol: &str, kernarg: u32, group: u32, private: u32, align: u32) -> KernelMetadata {
    KernelMetadata {
        name: symbol.trim_end_matches(".kd").to_string(),
        kernel_desc_symbol: symbol.to_string(),
        kernarg_segment_size: kernarg,
        group_segment_size: group,
        private_segment_size: private,
        kernarg_segment_align: align,
        wavefront_size: 64,
        sgpr_count: 10,
        vgpr_count: 20,
        max_flat_workgroup_size: 256,
    }
}

fn entry(symbol: &str, max_vgpr_count: Option<usize>) -> CodegenEntry {
    CodegenEntry {
        symbol: symbol.to_string(),
        platform: CodegenDesc { max_vgpr_count, ..CodegenDesc::default() },
    }
}

#[test]
fn default_launch_requirements_are_zero() {
    assert_eq!(
        CodegenDesc::default(),
        CodegenDesc {
            group_segment_size: 0,
            kernarg_segment_size: 0,
            private_segment_size: 0,
            workgroup_fbarrier_count: 0,
            group_segment_p2align: 0,
            kernarg_segment_p2align: 0,
            private_segment_p2align: 0,
            max_vgpr_count: None,
        }
    );
    let desc = Codegenner.root(&KernelDesc { max_vgpr_count: Some(64) });
    assert_eq!(desc, CodegenDesc { max_vgpr_count: Some(64), ..CodegenDesc::default() });
}

#[test]
fn entry_points_are_named_by_their_descriptors() {
    let mut entries = vec![entry("a", None), entry("", Some(3)), entry("b.kd", None)];
    Codegenner.kernel_descriptor_symbols(&mut entries);
    let symbols: Vec<&str> = entries.iter().map(|e| e.symbol.as_str()).collect();
    assert_eq!(symbols, vec!["a.kd", ".kd", "b.kd.kd"]);
    assert_eq!(entries[1].platform.max_vgpr_count, Some(3));
}

#[test]
fn launch_requirements_are_read_off_the_metadata() {
    let kernels = vec![
        kernel("a.kd", 1, 2, 3, 4),
        kernel("b.kd", 24, 1024, 16, 8),
        kernel("a.kd", 16, 0, 8, 64),
        kernel("c.kd", 0, 0, 0, 0),
    ];
    let mut entries = vec![entry("b.kd", Some(7)), entry("a.kd", None), entry("c.kd", None)];
    assert_eq!(Codegenner.post_codegen(&mut entries, &kernels), Ok(()));
    assert_eq!(
        entries[0].platform,
        CodegenDesc {
            group_segment_size: 1024,
            kernarg_segment_size: 24,
            private_segment_size: 16,
            workgroup_fbarrier_count: 0,
            group_segment_p2align: 5,
            kernarg_segment_p2align: 3,
            private_segment_p2align: 5,
            max_vgpr_count: Some(7),
        }
    );
    // The last kernel with the symbol is taken.
    assert_eq!(entries[1].platform.kernarg_segment_size, 16);
    assert_eq!(entries[1].platform.kernarg_segment_p2align, 6);
    assert_eq!(entries[1].platform.max_vgpr_count, None);
    // An alignment of zero has 32 trailing zeros.
    assert_eq!(entries[2].platform.kernarg_segment_p2align, 32);
    assert_eq!(entries[2].symbol, "c.kd");
}

#[test]
fn filling_stops_at_the_first_entry_point_without_metadata() {
    let kernels = vec![kernel("a.kd", 1, 2, 3, 4)];
    let mut entries = vec![entry("a.kd", None), entry("x.kd", Some(1)), entry("a.kd", None)];
    assert_eq!(
        Codegenner.post_codegen(&mut entries, &kernels),
        Err(Error::MissingKernelMetadataNote)
    );
    assert_eq!(entries[0].platform.group_segment_size, 2);
    assert_eq!(entries[0].platform.kernarg_segment_p2align, 2);
    assert_eq!(entries[1].platform, CodegenDesc { max_vgpr_count: Some(1), ..CodegenDesc::default() });
    assert_eq!(entries[2].platform, CodegenDesc::default());
    let mut none: Vec<CodegenEntry> = Vec::new();
    assert_eq!(Codegenner.post_codegen(&mut none, &[]), Ok(()));
    let mut entries = vec![entry("a.kd", None)];
    assert_eq!(Codegenner.post_codegen(&mut entries, &[]), Err(Error::MissingKernelMetadataNote));
}

fn attrs() -> FnAttrs {
    FnAttrs {
        amdgpu_uniform_workgroup_size: None,
        amdgpu_num_vgpr: None,
        inline_always: false,
        addr_space: None,
    }
}

fn item(name: &str, kind: MetaItemKind) -> NestedMetaItem {
    NestedMetaItem::MetaItem(MetaItem { name: name.to_string(), kind, span: Span { lo: 0, hi: 0 } })
}

fn value(name: &str, text: &str) -> NestedMetaItem {
    item(name, MetaItemKind::NameValue(Lit::Str(text.to_string())))
}

#[test]
fn root_takes_the_register_limit_and_nothing_else() {
    let desc = CodegenDesc { max_vgpr_count: Some(32), ..CodegenDesc::default() };
    let lds = vec![item("amdgpu", MetaItemKind::List(vec![value("runtime_item", "lds_array")]))];
    let mut set = attrs();
    Codegenner.codegen_fn_attrs(Some(&desc), true, Some(&lds), &mut set);
    assert_eq!(
        set,
        FnAttrs {
            amdgpu_uniform_workgroup_size: Some(true),
            amdgpu_num_vgpr: Some(32),
            inline_always: false,
            addr_space: None,
        }
    );
}

#[test]
fn other_functions_are_inlined_where_the_code_is_optimised() {
    let mut set = attrs();
    Codegenner.codegen_fn_attrs(None, true, None, &mut set);
    assert_eq!(
        set,
        FnAttrs {
            amdgpu_uniform_workgroup_size: Some(true),
            amdgpu_num_vgpr: None,
            inline_always: true,
            addr_space: None,
        }
    );
    let mut set = attrs();
    Codegenner.codegen_fn_attrs(None, false, None, &mut set);
    assert!(!set.inline_always);
    assert_eq!(set.amdgpu_uniform_workgroup_size, Some(true));
    let mut set = FnAttrs { inline_always: true, ..attrs() };
    Codegenner.codegen_fn_attrs(None, false, None, &mut set);
    assert!(set.inline_always);
}

#[test]
fn marked_types_live_in_local_memory() {
    let marked = vec![
        value("runtime_item", "lds_array"),
        item("other", MetaItemKind::List(vec![value("runtime_item", "lds_array")])),
        item(
            "amdgpu",
            MetaItemKind::List(vec![
                value("runtime_item", "other"),
                item("runtime_item", MetaItemKind::Word),
                value("runtime_item", "lds_array"),
            ]),
        ),
    ];
    let mut set = attrs();
    Codegenner.codegen_fn_attrs(None, false, Some(&marked), &mut set);
    assert_eq!(set.addr_space, Some(3));
    // An address space that is set stays.
    let mut set = FnAttrs { addr_space: Some(1), ..attrs() };
    Codegenner.codegen_fn_attrs(None, false, Some(&marked), &mut set);
    assert_eq!(set.addr_space, Some(1));
    let unmarked = vec![
        value("runtime_item", "lds_array"),
        item("amdgpu", MetaItemKind::Word),
        item("amdgpu", MetaItemKind::List(vec![value("runtime_item", "lds")])),
        item("amdgpu", MetaItemKind::List(vec![value("item", "lds_array")])),
        NestedMetaItem::Literal(Lit::Str("lds_array".to_string()), Span { lo: 0, hi: 0 }),
    ];
    let mut set = attrs();
    Codegenner.codegen_fn_attrs(None, false, Some(&unmarked), &mut set);
    assert_eq!(set.addr_space, None);
}
