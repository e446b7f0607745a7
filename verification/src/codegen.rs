//! What is decided around the code generation for a device: the attributes
//! of a function, and the launch requirements that are read off the linked
//! object.

use vstd::prelude::*;
use vstd::string::StringExecFns;
use crate::meta::{same_text, MetaItem, MetaItemKind, NestedMetaItem};

verus! {

/// The type of the note that holds the metadata of a code object.
pub const NT_AMDGPU_METADATA: u32 = 32;

/// The address space of the memory that a workgroup shares.
pub const ADDR_SPACE_LOCAL: u32 = 3;

/// What a kernel asks of the code generation.
#[derive(Clone, Copy, Debug, Eq, PartialEq, Hash)]
pub struct KernelDesc {
    pub max_vgpr_count: Option<usize>,
}

/// The launch requirements of a kernel. Most fields are filled in after
/// the code was generated.
#[derive(Clone, Copy, Debug, Eq, PartialEq, Hash)]
pub struct CodegenDesc {
    pub group_segment_size: u32,
    pub kernarg_segment_size: u32,
    pub private_segment_size: u32,
    /// Always zero: the metadata does not hold it.
    pub workgroup_fbarrier_count: u32,
    pub group_segment_p2align: u8,
    pub kernarg_segment_p2align: u8,
    pub private_segment_p2align: u8,
    pub max_vgpr_count: Option<usize>,
}

impl CodegenDesc {
    /// The requirements before anything is known: all zero, and no limit
    /// on the vector registers.
    pub open spec fn spec_default() -> CodegenDesc {
        CodegenDesc {
            group_segment_size: 0,
            kernarg_segment_size: 0,
            private_segment_size: 0,
            workgroup_fbarrier_count: 0,
            group_segment_p2align: 0,
            kernarg_segment_p2align: 0,
            private_segment_p2align: 0,
            max_vgpr_count: None,
        }
    }
}

impl Default for CodegenDesc {
    fn default() -> (desc: Self)
        ensures
            desc == CodegenDesc::spec_default(),
    {
        CodegenDesc {
            group_segment_size: 0,
            kernarg_segment_size: 0,
            private_segment_size: 0,
            workgroup_fbarrier_count: 0,
            group_segment_p2align: 0,
            kernarg_segment_p2align: 0,
            private_segment_p2align: 0,
            max_vgpr_count: None,
        }
    }
}

/// The metadata of one kernel in a code object.
#[derive(Debug)]
pub struct KernelMetadata {
    pub name: String,
    /// The symbol of the kernel's descriptor.
    pub kernel_desc_symbol: String,
    pub kernarg_segment_size: u32,
    pub group_segment_size: u32,
    pub private_segment_size: u32,
    pub kernarg_segment_align: u32,
    pub wavefront_size: u32,
    pub sgpr_count: u32,
    pub vgpr_count: u32,
    pub max_flat_workgroup_size: u32,
}

/// One entry point of the generated code.
#[derive(Debug)]
pub struct CodegenEntry {
    pub symbol: String,
    pub platform: CodegenDesc,
}

/// The attributes of a function that the code generation for the device
/// sets.
#[derive(Clone, Copy, Debug, Eq, PartialEq, Hash)]
pub struct FnAttrs {
    pub amdgpu_uniform_workgroup_size: Option<bool>,
    pub amdgpu_num_vgpr: Option<usize>,
    pub inline_always: bool,
    pub addr_space: Option<u32>,
}

/// Why the launch requirements could not be read off a linked object.
#[derive(Clone, Copy, Debug, Eq, PartialEq, Structural, Hash)]
pub enum Error {
    /// The object does not start as an ELF image does.
    NotAnElf,
    /// The object or one of its notes cannot be parsed.
    MalformedObject,
    /// The object holds no metadata note, or the note does not describe an
    /// entry point.
    MissingKernelMetadataNote,
}

/// A note of an ELF image.
#[derive(Debug)]
pub struct ElfNote {
    pub n_type: u32,
    pub desc: Vec<u8>,
}

/// The notes of an object as plain values: for each the type and the
/// descriptor, or nothing where the note cannot be parsed.
pub open spec fn spec_notes_view(notes: Seq<Option<ElfNote>>) -> Seq<Option<(u32, Seq<u8>)>> {
    Seq::new(
        notes.len(),
        |i: int|
            match notes[i] {
                Some(note) => Some((note.n_type, note.desc@)),
                None => None,
            },
    )
}

/// Whether the bytes start with the four bytes that open an ELF image.
pub open spec fn spec_has_elf_magic(exe: Seq<u8>) -> bool {
    exe.len() >= 4 && exe[0] == 0x7f && exe[1] == 0x45 && exe[2] == 0x4c && exe[3] == 0x46
}

/// Tells whether the bytes start with the four bytes that open an ELF
/// image.
pub fn has_elf_magic(exe: &[u8]) -> (elf: bool)
    ensures
        elf == spec_has_elf_magic(exe@),
{
    exe.len() >= 4 && exe[0] == 0x7f && exe[1] == 0x45 && exe[2] == 0x4c && exe[3] == 0x46
}

/// What the ELF parser makes of the bytes of an ELF image: its notes,
/// section by section, or nothing where it cannot parse the image.
pub uninterp spec fn spec_elf_notes(exe: Seq<u8>) -> Option<Seq<Option<(u32, Seq<u8>)>>>;

/// `goblin::elf::Elf::parse` and, on the image that it gives,
/// `Elf::iter_note_sections` over every note section, for bytes that
/// start as an ELF image does. The notes come in the order of the
/// iterator; a note that the iterator gives as an error comes as `None`.
/// An image without note sections has no notes, and an image that the
/// parser refuses gives `None`. What the parser makes of given bytes is
/// not stated, only that it depends on the bytes alone.
#[verifier::external_body]
fn elf_note_sections(exe: &[u8]) -> (notes: Option<Vec<Option<ElfNote>>>)
    requires
        spec_has_elf_magic(exe@),
    ensures
        match notes {
            Some(notes) => spec_elf_notes(exe@) == Some(spec_notes_view(notes@)),
            None => spec_elf_notes(exe@) is None,
        },
{
    goblin::elf::Elf::parse(exe).ok().map(
        |elf|
            elf.iter_note_sections(exe, None).into_iter().flatten().map(
                |note| note.ok().map(|note| ElfNote { n_type: note.n_type, desc: note.desc.to_vec() }),
            ).collect(),
    )
}

/// The descriptor of the metadata note among the notes from `start` on:
/// that of the first note of the metadata type. A note before it that
/// cannot be parsed is an error, and so is the lack of a metadata note.
pub open spec fn spec_metadata_from(notes: Seq<Option<(u32, Seq<u8>)>>, start: int) -> Result<
    Seq<u8>,
    Error,
>
    decreases notes.len() - start,
{
    if start >= notes.len() || start < 0 {
        Err(Error::MissingKernelMetadataNote)
    } else {
        match notes[start] {
            None => Err(Error::MalformedObject),
            Some((n_type, desc)) => if n_type == NT_AMDGPU_METADATA {
                Ok(desc)
            } else {
                spec_metadata_from(notes, start + 1)
            },
        }
    }
}

/// The descriptor of the metadata note among `notes`.
pub open spec fn spec_metadata_note(notes: Seq<Option<(u32, Seq<u8>)>>) -> Result<Seq<u8>, Error> {
    spec_metadata_from(notes, 0)
}

/// Picks the descriptor of the metadata note out of the notes of an
/// object.
pub fn metadata_note_of(notes: Vec<Option<ElfNote>>) -> (desc: Result<Vec<u8>, Error>)
    ensures
        match desc {
            Ok(desc) => spec_metadata_note(spec_notes_view(notes@)) == Ok::<_, Error>(desc@),
            Err(error) => spec_metadata_note(spec_notes_view(notes@)) == Err::<Seq<u8>, _>(error),
        },
{
    let ghost view = spec_notes_view(notes@);
    let mut notes = notes;
    let ghost all = notes@;
    let mut i: usize = notes.len();
    let mut found: Result<Vec<u8>, Error> = Err(Error::MissingKernelMetadataNote);
    // Walk from the back, so that the first deciding note is seen last.
    while i > 0
        invariant
            i <= all.len(),
            notes@.len() == i,
            notes@ == all.take(i as int),
            view == spec_notes_view(all),
            match found {
                Ok(desc) => spec_metadata_from(view, i as int) == Ok::<_, Error>(desc@),
                Err(error) => spec_metadata_from(view, i as int) == Err::<Seq<u8>, _>(error),
            },
        decreases i,
    {
        let note = notes.pop().unwrap();
        i = i - 1;
        assert(note == all[i as int]);
        match note {
            None => {
                found = Err(Error::MalformedObject);
            },
            Some(note) => {
                if note.n_type == NT_AMDGPU_METADATA {
                    found = Ok(note.desc);
                }
            },
        }
    }
    found
}

/// Reads the descriptor of the metadata note off a linked object. Bytes
/// that do not start as an ELF image does are not handed to the parser.
pub fn find_metadata_note(exe: &[u8]) -> (desc: Result<Vec<u8>, Error>)
    ensures
        match desc {
            Ok(desc) => spec_find_metadata_note(exe@) == Ok::<_, Error>(desc@),
            Err(error) => spec_find_metadata_note(exe@) == Err::<Seq<u8>, _>(error),
        },
{
    if !has_elf_magic(exe) {
        return Err(Error::NotAnElf);
    }
    match elf_note_sections(exe) {
        Some(notes) => metadata_note_of(notes),
        None => Err(Error::MalformedObject),
    }
}

/// The descriptor of the metadata note of an object, given what the ELF
/// parser makes of the object's bytes: bytes that do not start as an ELF
/// image does are no ELF image, and an image that the parser refuses is
/// malformed.
pub open spec fn spec_find_metadata_note(exe: Seq<u8>) -> Result<Seq<u8>, Error> {
    if !spec_has_elf_magic(exe) {
        Err(Error::NotAnElf)
    } else {
        match spec_elf_notes(exe) {
            Some(notes) => spec_metadata_note(notes),
            None => Err(Error::MalformedObject),
        }
    }
}

/// The code generation for the device.
#[derive(Clone, Copy, Debug, Default)]
pub struct Codegenner;

/// Whether an element of `amdgpu(..)` marks an array in the memory that a
/// workgroup shares: `runtime_item = "lds_array"`.
pub open spec fn spec_is_lds_array_item(item: NestedMetaItem) -> bool {
    item.spec_has_name("runtime_item"@) && item.spec_value_str() == Some("lds_array"@)
}

/// Whether an attribute item marks an array in the memory that a workgroup
/// shares: `amdgpu(.., runtime_item = "lds_array", ..)`.
pub open spec fn spec_is_lds_array(item: NestedMetaItem) -> bool {
    &&& item matches NestedMetaItem::MetaItem(outer)
    &&& outer.name@ == "amdgpu"@
    &&& outer.kind matches MetaItemKind::List(inner)
    &&& exists|i: int| 0 <= i < inner@.len() && spec_is_lds_array_item(#[trigger] inner@[i])
}

/// Whether one of the attribute items of a type marks an array in the
/// memory that a workgroup shares.
pub open spec fn spec_marks_lds_array(items: Seq<NestedMetaItem>) -> bool {
    exists|i: int| 0 <= i < items.len() && spec_is_lds_array(#[trigger] items[i])
}

/// The attributes that the code generation gives a function.
///
/// A root gets the limit on the vector registers of its launch
/// requirements, and nothing more. Another function is always inlined
/// where the code is optimised, and is put in the memory that a workgroup
/// shares where it has no address space yet and is of a type that an
/// attribute marks as an array there.
pub open spec fn spec_codegen_fn_attrs(
    root_desc: Option<CodegenDesc>,
    optimize: bool,
    adt_attrs: Option<Seq<NestedMetaItem>>,
    attrs: FnAttrs,
) -> FnAttrs {
    match root_desc {
        Some(desc) => FnAttrs {
            amdgpu_uniform_workgroup_size: Some(true),
            amdgpu_num_vgpr: desc.max_vgpr_count,
            ..attrs
        },
        None => FnAttrs {
            amdgpu_uniform_workgroup_size: Some(true),
            inline_always: attrs.inline_always || optimize,
            addr_space: if attrs.addr_space is None && (match adt_attrs {
                Some(items) => spec_marks_lds_array(items),
                None => false,
            }) {
                Some(ADDR_SPACE_LOCAL)
            } else {
                attrs.addr_space
            },
            ..attrs
        },
    }
}

/// Whether an element of `amdgpu(..)` marks an array in the memory that a
/// workgroup shares.
fn is_lds_array_item(item: &NestedMetaItem) -> (marks: bool)
    ensures
        marks == spec_is_lds_array_item(*item),
{
    if !item.has_name("runtime_item") {
        return false;
    }
    match item.value_str() {
        Some(rt_item) => same_text(rt_item, "lds_array"),
        None => false,
    }
}

/// Whether an attribute item marks an array in the memory that a workgroup
/// shares.
fn is_lds_array(item: &NestedMetaItem) -> (marks: bool)
    ensures
        marks == spec_is_lds_array(*item),
{
    let outer = match item {
        NestedMetaItem::MetaItem(outer) => outer,
        _ => {
            return false;
        },
    };
    if !outer.has_name("amdgpu") {
        return false;
    }
    let inner = match outer.meta_item_list() {
        Some(inner) => inner,
        None => {
            return false;
        },
    };
    let mut i: usize = 0;
    while i < inner.len()
        invariant
            i <= inner@.len(),
            *item == NestedMetaItem::MetaItem(*outer),
            outer.name@ == "amdgpu"@,
            outer.spec_list() == Some(inner@),
            forall|j: int| 0 <= j < i ==> !spec_is_lds_array_item(#[trigger] inner@[j]),
        decreases inner@.len() - i,
    {
        if is_lds_array_item(&inner[i]) {
            assert(spec_is_lds_array_item(inner@[i as int]));
            return true;
        }
        i = i + 1;
    }
    false
}

/// The launch requirements of a kernel after the metadata of its code was
/// read: the segment sizes and the alignment of the kernel arguments are
/// those of the metadata, the group and private segments are aligned to 32
/// bytes, and there are no barriers.
pub open spec fn spec_with_metadata(platform: CodegenDesc, metadata: KernelMetadata) -> CodegenDesc {
    CodegenDesc {
        group_segment_size: metadata.group_segment_size,
        kernarg_segment_size: metadata.kernarg_segment_size,
        private_segment_size: metadata.private_segment_size,
        workgroup_fbarrier_count: 0,
        group_segment_p2align: 5,
        private_segment_p2align: 5,
        kernarg_segment_p2align: metadata.kernarg_segment_align.trailing_zeros() as u8,
        max_vgpr_count: platform.max_vgpr_count,
    }
}

/// The position of the metadata for `symbol` among the first `bound`
/// kernels: that of the last whose descriptor has this symbol.
pub open spec fn spec_metadata_for(kernels: Seq<KernelMetadata>, symbol: Seq<char>, bound: int) -> Option<
    int,
>
    decreases bound,
{
    if bound <= 0 {
        None
    } else if kernels[bound - 1].kernel_desc_symbol@ == symbol {
        Some(bound - 1)
    } else {
        spec_metadata_for(kernels, symbol, bound - 1)
    }
}

/// The position of the first entry point among those from `start` on that
/// the metadata does not describe.
pub open spec fn spec_first_undescribed(
    entries: Seq<CodegenEntry>,
    kernels: Seq<KernelMetadata>,
    start: int,
) -> Option<int>
    decreases entries.len() - start,
{
    if start < 0 || start >= entries.len() {
        None
    } else if spec_metadata_for(kernels, entries[start].symbol@, kernels.len() as int) is None {
        Some(start)
    } else {
        spec_first_undescribed(entries, kernels, start + 1)
    }
}

/// An entry point after its launch requirements were read off the
/// metadata for its symbol.
pub open spec fn spec_described(entry: CodegenEntry, kernels: Seq<KernelMetadata>) -> CodegenEntry {
    CodegenEntry {
        symbol: entry.symbol,
        platform: spec_with_metadata(
            entry.platform,
            kernels[spec_metadata_for(kernels, entry.symbol@, kernels.len() as int)->0],
        ),
    }
}

impl CodegenEntry {
    /// Replaces the launch requirements.
    fn set_platform(&mut self, platform: CodegenDesc)
        ensures
            final(self).symbol == old(self).symbol,
            final(self).platform == platform,
    {
        self.platform = platform;
    }

    /// Appends to the symbol.
    fn push_suffix(&mut self, suffix: &str)
        ensures
            final(self).symbol@ == old(self).symbol@ + suffix@,
            final(self).platform == old(self).platform,
    {
        self.symbol.append(suffix);
    }
}

/// Looks the metadata for `symbol` up.
fn metadata_for<'a>(kernels: &'a [KernelMetadata], symbol: &str) -> (found: Option<&'a KernelMetadata>)
    ensures
        match found {
            Some(metadata) => {
                let at = spec_metadata_for(kernels@, symbol@, kernels@.len() as int);
                at is Some && 0 <= at->0 < kernels@.len() && *metadata == kernels@[at->0]
            },
            None => spec_metadata_for(kernels@, symbol@, kernels@.len() as int) is None,
        },
{
    let mut i: usize = kernels.len();
    while i > 0
        invariant
            i <= kernels@.len(),
            spec_metadata_for(kernels@, symbol@, kernels@.len() as int) == spec_metadata_for(
                kernels@,
                symbol@,
                i as int,
            ),
        decreases i,
    {
        i = i - 1;
        if same_text(kernels[i].kernel_desc_symbol.as_str(), symbol) {
            return Some(&kernels[i]);
        }
    }
    None
}

impl Codegenner {
    /// The launch requirements that the code generation of a root starts
    /// from: the limit on the vector registers that the kernel asks for.
    pub fn root(&self, desc: &KernelDesc) -> (cg_desc: CodegenDesc)
        ensures
            cg_desc == (CodegenDesc {
                max_vgpr_count: desc.max_vgpr_count,
                ..CodegenDesc::spec_default()
            }),
    {
        // most of these fields are filled-in post-codegen
        let mut cg_desc = CodegenDesc::default();
        cg_desc.max_vgpr_count = desc.max_vgpr_count;
        cg_desc
    }

    /// Sets the attributes of a function. `root_desc` holds the launch
    /// requirements where the function is a root, `optimize` says whether
    /// the code is optimised, and `adt_attrs` holds the attribute items of
    /// the function's type where that is a struct, enum or union.
    pub fn codegen_fn_attrs(
        &self,
        root_desc: Option<&CodegenDesc>,
        optimize: bool,
        adt_attrs: Option<&[NestedMetaItem]>,
        attrs: &mut FnAttrs,
    )
        ensures
            *final(attrs) == spec_codegen_fn_attrs(
                match root_desc {
                    Some(desc) => Some(*desc),
                    None => None,
                },
                optimize,
                match adt_attrs {
                    Some(items) => Some(items@),
                    None => None,
                },
                *old(attrs),
            ),
    {
        attrs.amdgpu_uniform_workgroup_size = Some(true);
        if let Some(desc) = root_desc {
            attrs.amdgpu_num_vgpr = desc.max_vgpr_count;
            return ;
        }
        // we need to force inlining, because sometimes even the device
        // specific pass doesn't inline everything.
        if optimize {
            attrs.inline_always = true;
        }
        // Don't overwrite any existing address space attribute:
        if attrs.addr_space.is_some() {
            return ;
        }
        match adt_attrs {
            Some(items) => {
                let mut i: usize = 0;
                while i < items.len()
                    invariant
                        i <= items@.len(),
                        root_desc is None,
                        adt_attrs == Some(items),
                        old(attrs).addr_space is None,
                        forall|j: int| 0 <= j < i ==> !spec_is_lds_array(#[trigger] items@[j]),
                        attrs.addr_space is None,
                        attrs.amdgpu_uniform_workgroup_size == Some(true),
                        attrs.amdgpu_num_vgpr == old(attrs).amdgpu_num_vgpr,
                        attrs.inline_always == (old(attrs).inline_always || optimize),
                    decreases items@.len() - i,
                {
                    if is_lds_array(&items[i]) {
                        assert(spec_is_lds_array(items@[i as int]));
                        attrs.addr_space = Some(ADDR_SPACE_LOCAL);
                        return ;
                    }
                    i = i + 1;
                }
            },
            None => {},
        }
    }

    /// Names the entry points by the symbols of their kernel descriptors:
    /// appends `.kd` to each symbol.
    pub fn kernel_descriptor_symbols(&self, entries: &mut Vec<CodegenEntry>)
        ensures
            final(entries)@.len() == old(entries)@.len(),
            forall|i: int|
                0 <= i < old(entries)@.len() ==> (#[trigger] final(entries)@[i]).symbol@ == old(
                    entries,
                )@[i].symbol@ + ".kd"@ && final(entries)@[i].platform == old(entries)@[i].platform,
    {
        let mut i: usize = 0;
        while i < entries.len()
            invariant
                i <= entries@.len(),
                entries@.len() == old(entries)@.len(),
                forall|j: int|
                    0 <= j < i ==> (#[trigger] entries@[j]).symbol@ == old(entries)@[j].symbol@
                        + ".kd"@ && entries@[j].platform == old(entries)@[j].platform,
                forall|j: int| i <= j < entries@.len() ==> entries@[j] == old(entries)@[j],
            decreases entries@.len() - i,
        {
            entries[i].push_suffix(".kd");
            i = i + 1;
        }
    }

    /// Fills the launch requirements of the entry points in from the
    /// metadata of their code. Each entry point takes the metadata of the
    /// last kernel whose descriptor has its symbol. At the first entry
    /// point that the metadata does not describe the filling stops with an
    /// error, and the entry points from there on stay as they were.
    pub fn post_codegen(&self, entries: &mut Vec<CodegenEntry>, kernels: &[KernelMetadata]) -> (done:
        Result<(), Error>)
        ensures
            final(entries)@.len() == old(entries)@.len(),
            done == match spec_first_undescribed(old(entries)@, kernels@, 0) {
                Some(_) => Err::<(), Error>(Error::MissingKernelMetadataNote),
                None => Ok(()),
            },
            forall|i: int|
                0 <= i < old(entries)@.len() ==> #[trigger] final(entries)@[i] == if spec_first_undescribed(
                    old(entries)@,
                    kernels@,
                    0,
                ) matches Some(stop) && stop <= i {
                    old(entries)@[i]
                } else {
                    spec_described(old(entries)@[i], kernels@)
                },
    {
        let mut i: usize = 0;
        while i < entries.len()
            invariant
                i <= entries@.len(),
                entries@.len() == old(entries)@.len(),
                spec_first_undescribed(old(entries)@, kernels@, 0) == spec_first_undescribed(
                    old(entries)@,
                    kernels@,
                    i as int,
                ),
                forall|j: int|
                    0 <= j < i ==> #[trigger] entries@[j] == spec_described(
                        old(entries)@[j],
                        kernels@,
                    ),
                forall|j: int| i <= j < entries@.len() ==> entries@[j] == old(entries)@[j],
            decreases entries@.len() - i,
        {
            let kernel_md = match metadata_for(kernels, entries[i].symbol.as_str()) {
                Some(kernel_md) => kernel_md,
                None => {
                    return Err(Error::MissingKernelMetadataNote);
                },
            };
            let p2align: u32 = kernel_md.kernarg_segment_align.trailing_zeros();
            proof {
                vstd::std_specs::bits::axiom_u32_trailing_zeros(kernel_md.kernarg_segment_align);
            }
            let platform = CodegenDesc {
                group_segment_size: kernel_md.group_segment_size,
                kernarg_segment_size: kernel_md.kernarg_segment_size,
                private_segment_size: kernel_md.private_segment_size,
                workgroup_fbarrier_count: 0,
                // 2^5 = 32
                group_segment_p2align: 5,
                private_segment_p2align: 5,
                kernarg_segment_p2align: p2align as u8,
                max_vgpr_count: entries[i].platform.max_vgpr_count,
            };
            entries[i].set_platform(platform);
            i = i + 1;
        }
        Ok(())
    }
}

} // verus!
