//! What the attributes of a definition say: the descriptor set and binding
//! of a global, and the capabilities, execution model and execution modes
//! of a root.

use vstd::prelude::*;
use std::collections::BTreeSet;
use crate::meta::{
    lemma_text_before_irreflexive, lemma_text_before_total, lemma_text_before_transitive, parse_u32,
    spec_parse_u32, spec_text_before, text_before, DefId, Diagnostic, Lit, Message, MetaItem,
    MetaItemKind, NestedMetaItem, Span,
};
use crate::order::{lemma_numbers_are_ordered, numbers_are_ordered};
use crate::spirv::{Capability, ExecutionMode, ExecutionModel, Grammar};

verus! {

broadcast use vstd::std_specs::btree::group_btree_axioms;

/// What `find_descriptor_set_binding_nums` makes of one attribute item: the
/// set number of `set = "<integer>"`, the binding number of `binding =
/// "<integer>"`, and nothing of another item.
pub open spec fn spec_find_nums(item: NestedMetaItem) -> (Option<u32>, Option<u32>) {
    if item.spec_has_name("set"@) {
        match item.spec_value_str() {
            Some(text) => (spec_parse_u32(text), None),
            None => (None, None),
        }
    } else if item.spec_has_name("binding"@) {
        match item.spec_value_str() {
            Some(text) => (None, spec_parse_u32(text)),
            None => (None, None),
        }
    } else {
        (None, None)
    }
}

/// What `find_descriptor_set_binding_nums` has to say of one attribute
/// item: that `set` or `binding` lacks its value, or that the value is no
/// `u32`.
pub open spec fn spec_find_diagnostic(item: NestedMetaItem) -> Option<Diagnostic> {
    if item.spec_has_name("set"@) {
        match item.spec_value_str() {
            Some(text) => if spec_parse_u32(text) is None {
                Some(Diagnostic::spec_error(item.spec_span(), Message::CantParseU32))
            } else {
                None
            },
            None => Some(Diagnostic::spec_error(item.spec_span(), Message::SetNeedsValue)),
        }
    } else if item.spec_has_name("binding"@) {
        match item.spec_value_str() {
            Some(text) => if spec_parse_u32(text) is None {
                Some(Diagnostic::spec_error(item.spec_span(), Message::CantParseU32))
            } else {
                None
            },
            None => Some(Diagnostic::spec_error(item.spec_span(), Message::BindingNeedsValue)),
        }
    } else {
        None
    }
}

/// The diagnostics after `diagnostic`, if there is one, was added.
pub open spec fn spec_emit(diagnostics: Seq<Diagnostic>, diagnostic: Option<Diagnostic>) -> Seq<
    Diagnostic,
> {
    match diagnostic {
        Some(diagnostic) => diagnostics.push(diagnostic),
        None => diagnostics,
    }
}

/// Reads the set number or the binding number off one attribute item.
pub fn find_descriptor_set_binding_nums(item: &NestedMetaItem, diagnostics: &mut Vec<Diagnostic>) -> (nums:
    (Option<u32>, Option<u32>))
    ensures
        nums == spec_find_nums(*item),
        final(diagnostics)@ == spec_emit(old(diagnostics)@, spec_find_diagnostic(*item)),
{
    if item.has_name("set") {
        let value = match item.value_str() {
            Some(value) => value,
            None => {
                diagnostics.push(Diagnostic::error(item.span(), Message::SetNeedsValue));
                return (None, None);
            },
        };
        let id: u32 = match parse_u32(value) {
            Some(id) => id,
            None => {
                diagnostics.push(Diagnostic::error(item.span(), Message::CantParseU32));
                return (None, None);
            },
        };
        return (Some(id), None);
    } else if item.has_name("binding") {
        let value = match item.value_str() {
            Some(value) => value,
            None => {
                diagnostics.push(Diagnostic::error(item.span(), Message::BindingNeedsValue));
                return (None, None);
            },
        };
        let id: u32 = match parse_u32(value) {
            Some(id) => id,
            None => {
                diagnostics.push(Diagnostic::error(item.span(), Message::CantParseU32));
                return (None, None);
            },
        };
        return (None, Some(id));
    }
    return (None, None);
}

/// The later of two readings, where the later one has a number.
pub open spec fn spec_later(earlier: Option<u32>, later: Option<u32>) -> Option<u32> {
    match later {
        Some(_) => later,
        None => earlier,
    }
}

/// The set number and the binding number that the attribute items of a
/// definition give: each the last that is given.
pub open spec fn spec_optional_nums(items: Seq<NestedMetaItem>) -> (Option<u32>, Option<u32>)
    decreases items.len(),
{
    if items.len() == 0 {
        (None, None)
    } else {
        let before = spec_optional_nums(items.drop_last());
        let last = spec_find_nums(items.last());
        (spec_later(before.0, last.0), spec_later(before.1, last.1))
    }
}

/// What there is to say of the attribute items of a definition while their
/// set and binding numbers are read, item by item.
pub open spec fn spec_optional_diagnostics(items: Seq<NestedMetaItem>) -> Seq<Diagnostic>
    decreases items.len(),
{
    if items.len() == 0 {
        Seq::empty()
    } else {
        spec_emit(spec_optional_diagnostics(items.drop_last()), spec_find_diagnostic(items.last()))
    }
}

/// Reads the set number and the binding number off the attribute items of
/// a definition.
pub fn optional_descriptor_set_binding_nums(
    items: &[NestedMetaItem],
    diagnostics: &mut Vec<Diagnostic>,
) -> (nums: (Option<u32>, Option<u32>))
    ensures
        nums == spec_optional_nums(items@),
        final(diagnostics)@ == old(diagnostics)@ + spec_optional_diagnostics(items@),
{
    let mut set_num: Option<u32> = None;
    let mut binding_num: Option<u32> = None;
    let mut i: usize = 0;
    while i < items.len()
        invariant
            i <= items@.len(),
            (set_num, binding_num) == spec_optional_nums(items@.take(i as int)),
            diagnostics@ == old(diagnostics)@ + spec_optional_diagnostics(items@.take(i as int)),
        decreases items@.len() - i,
    {
        assert(items@.take(i + 1).drop_last() =~= items@.take(i as int));
        let (set, binding) = find_descriptor_set_binding_nums(&items[i], diagnostics);
        if let Some(set) = set {
            set_num = Some(set);
        }
        if let Some(binding) = binding {
            binding_num = Some(binding);
        }
        assert(diagnostics@ =~= old(diagnostics)@ + spec_optional_diagnostics(items@.take(i + 1)));
        i = i + 1;
    }
    assert(items@.take(items@.len() as int) =~= items@);
    (set_num, binding_num)
}

/// The set number and the binding number of a definition that has to have
/// both, or the fatal error that says which is missing: the set number
/// first.
pub open spec fn spec_require_nums(items: Seq<NestedMetaItem>, span: Span) -> Result<
    (u32, u32),
    Diagnostic,
> {
    let nums = spec_optional_nums(items);
    if nums.0 is None {
        Err(Diagnostic::spec_fatal(span, Message::MissingSet))
    } else if nums.1 is None {
        Err(Diagnostic::spec_fatal(span, Message::MissingBinding))
    } else {
        Ok((nums.0->0, nums.1->0))
    }
}

/// Reads the set number and the binding number off the attribute items of
/// a definition at `span` that has to have both.
pub fn require_descriptor_set_binding_nums(
    items: &[NestedMetaItem],
    span: Span,
    diagnostics: &mut Vec<Diagnostic>,
) -> (nums: Result<(u32, u32), Diagnostic>)
    ensures
        nums == spec_require_nums(items@, span),
        final(diagnostics)@ == old(diagnostics)@ + spec_optional_diagnostics(items@),
{
    let (set_num, binding_num) = optional_descriptor_set_binding_nums(items, diagnostics);
    let set_num: u32 = match set_num {
        Some(set_num) => set_num,
        None => {
            return Err(Diagnostic::fatal(span, Message::MissingSet));
        },
    };
    let binding_num: u32 = match binding_num {
        Some(binding_num) => binding_num,
        None => {
            return Err(Diagnostic::fatal(span, Message::MissingBinding));
        },
    };
    Ok((set_num, binding_num))
}

/// The storage class of uniform data.
pub const STORAGE_CLASS_UNIFORM: u32 = 2;

/// The storage class of storage buffers.
pub const STORAGE_CLASS_STORAGE_BUFFER: u32 = 12;

/// A buffer as a descriptor.
#[derive(Clone, Copy, Debug, PartialEq, Eq, Structural, Hash)]
pub struct DescriptorBufferDesc {
    pub dynamic: Option<bool>,
    pub storage: bool,
}

/// What a descriptor describes.
#[derive(Clone, Copy, Debug, PartialEq, Eq, Structural, Hash)]
pub enum DescriptorDescTy {
    Buffer(DescriptorBufferDesc),
}

/// Where a global is bound, and as what.
#[derive(Clone, Copy, Debug, PartialEq, Eq, Structural, Hash)]
pub struct DescriptorSetBinding {
    pub set: u32,
    pub binding: u32,
    pub desc_ty: DescriptorDescTy,
    pub array_count: usize,
    pub read_only: bool,
}

/// The binding of a global of a storage class at the set and binding
/// numbers `nums`: a storage buffer is bound as a buffer that is written
/// to, uniform data as a buffer that is only read, and a global of another
/// class is not bound.
pub open spec fn spec_binding_for(storage_class: u32, nums: (u32, u32)) -> Option<
    DescriptorSetBinding,
> {
    if storage_class == STORAGE_CLASS_STORAGE_BUFFER {
        Some(
            DescriptorSetBinding {
                set: nums.0,
                binding: nums.1,
                desc_ty: DescriptorDescTy::Buffer(
                    DescriptorBufferDesc { dynamic: Some(false), storage: true },
                ),
                array_count: 1,
                read_only: false,
            },
        )
    } else if storage_class == STORAGE_CLASS_UNIFORM {
        Some(
            DescriptorSetBinding {
                set: nums.0,
                binding: nums.1,
                desc_ty: DescriptorDescTy::Buffer(
                    DescriptorBufferDesc { dynamic: Some(false), storage: false },
                ),
                array_count: 1,
                read_only: true,
            },
        )
    } else {
        None
    }
}

impl DescriptorSetBinding {
    /// The binding of the global at `span` with the storage class
    /// `storage_class`, whose set and binding numbers are read off its
    /// attribute items. A global of a class that is not bound has none; a
    /// global of a class that is bound has to have both numbers.
    pub fn for_storage_class(
        storage_class: u32,
        items: &[NestedMetaItem],
        span: Span,
        diagnostics: &mut Vec<Diagnostic>,
    ) -> (binding: Result<Option<DescriptorSetBinding>, Diagnostic>)
        ensures
            binding == if spec_binding_for(storage_class, (0, 0)) is None {
                Ok::<_, Diagnostic>(None)
            } else {
                match spec_require_nums(items@, span) {
                    Ok(nums) => Ok(spec_binding_for(storage_class, nums)),
                    Err(missing) => Err(missing),
                }
            },
            final(diagnostics)@ == if spec_binding_for(storage_class, (0, 0)) is None {
                old(diagnostics)@
            } else {
                old(diagnostics)@ + spec_optional_diagnostics(items@)
            },
    {
        if storage_class == STORAGE_CLASS_STORAGE_BUFFER {
            let (set_num, binding_num) = match require_descriptor_set_binding_nums(
                items,
                span,
                diagnostics,
            ) {
                Ok(nums) => nums,
                Err(missing) => {
                    return Err(missing);
                },
            };
            Ok(
                Some(
                    DescriptorSetBinding {
                        set: set_num,
                        binding: binding_num,
                        desc_ty: DescriptorDescTy::Buffer(
                            DescriptorBufferDesc { dynamic: Some(false), storage: true },
                        ),
                        array_count: 1,
                        read_only: false,
                    },
                ),
            )
        } else if storage_class == STORAGE_CLASS_UNIFORM {
            let (set_num, binding_num) = match require_descriptor_set_binding_nums(
                items,
                span,
                diagnostics,
            ) {
                Ok(nums) => nums,
                Err(missing) => {
                    return Err(missing);
                },
            };
            Ok(
                Some(
                    DescriptorSetBinding {
                        set: set_num,
                        binding: binding_num,
                        desc_ty: DescriptorDescTy::Buffer(
                            DescriptorBufferDesc { dynamic: Some(false), storage: false },
                        ),
                        array_count: 1,
                        read_only: true,
                    },
                ),
            )
        } else {
            Ok(None)
        }
    }
}

/// A root: a definition that a shader or kernel is compiled from.
#[derive(Debug)]
pub struct Root {
    pub did: DefId,
    /// What capabilities are we allowed to use or need?
    pub capabilities: BTreeSet<Capability>,
    /// What execution model are we using?
    pub execution_model: ExecutionModel,
    pub execution_modes: Vec<ExecutionMode>,
}

/// The capabilities after the capability called `name` was declared at
/// `span`, and what there is to say of it: a warning where it was declared
/// before, an error where no capability is called so.
pub open spec fn spec_parse_cap(
    grammar: &Grammar,
    capabilities: Set<Capability>,
    span: Span,
    name: Seq<char>,
) -> (Set<Capability>, Option<Diagnostic>) {
    match grammar.spec_capability_named(name) {
        Some(capability) => if capabilities.contains(capability) {
            (
                capabilities,
                Some(Diagnostic::spec_warning(span, Message::DuplicateCapability { capability })),
            )
        } else {
            (capabilities.insert(capability), None)
        },
        None => (capabilities, Some(Diagnostic::spec_error(span, Message::UnknownCapability))),
    }
}

/// What reading a list of capability words comes to.
pub struct CapabilityWords {
    pub capabilities: Set<Capability>,
    pub diagnostics: Seq<Diagnostic>,
    /// The place of the first element that is no word, where the reading
    /// stopped.
    pub stopped: Option<Span>,
}

/// The capabilities after the words of a list were declared up to the
/// first element that is no word.
pub open spec fn spec_parse_cap_words(
    grammar: &Grammar,
    capabilities: Set<Capability>,
    words: Seq<NestedMetaItem>,
) -> CapabilityWords
    decreases words.len(),
{
    if words.len() == 0 {
        CapabilityWords { capabilities, diagnostics: Seq::empty(), stopped: None }
    } else {
        let before = spec_parse_cap_words(grammar, capabilities, words.drop_last());
        if before.stopped is Some {
            before
        } else {
            match words.last() {
                NestedMetaItem::MetaItem(word) if word.spec_is_word() => {
                    let declared = spec_parse_cap(grammar, before.capabilities, word.span, word.name@);
                    CapabilityWords {
                        capabilities: declared.0,
                        diagnostics: spec_emit(before.diagnostics, declared.1),
                        stopped: None,
                    }
                },
                other => CapabilityWords { stopped: Some(other.spec_span()), ..before },
            }
        }
    }
}

/// The capabilities after the item `capabilities(..)` or `capabilities =
/// ".."` was read, and what there is to say of it. An item of another
/// form is an error.
pub open spec fn spec_parse_caps(grammar: &Grammar, capabilities: Set<Capability>, item: MetaItem) -> (
    Set<Capability>,
    Seq<Diagnostic>,
) {
    match item.kind {
        MetaItemKind::List(list) => {
            let read = spec_parse_cap_words(grammar, capabilities, list@);
            match read.stopped {
                Some(span) => (
                    read.capabilities,
                    read.diagnostics.push(
                        Diagnostic::spec_error(span, Message::CapabilitiesExpectsWords),
                    ),
                ),
                None => (read.capabilities, read.diagnostics),
            }
        },
        MetaItemKind::Word => (
            capabilities,
            seq![Diagnostic::spec_error(item.span, Message::CapabilitiesExpectsWords)],
        ),
        MetaItemKind::NameValue(lit) => match lit.spec_str() {
            Some(name) => {
                let declared = spec_parse_cap(grammar, capabilities, item.span, name);
                (declared.0, spec_emit(Seq::empty(), declared.1))
            },
            None => (
                capabilities,
                seq![Diagnostic::spec_error(item.span, Message::CapabilitiesExpectsWords)],
            ),
        },
    }
}

/// The warnings for those of `required` that are not among `declared`, in
/// the order of `required`.
pub open spec fn spec_missing(
    required: Seq<Capability>,
    declared: Set<Capability>,
    span: Span,
    message: spec_fn(Capability) -> Message,
) -> Seq<Diagnostic>
    decreases required.len(),
{
    if required.len() == 0 {
        Seq::empty()
    } else {
        let before = spec_missing(required.drop_last(), declared, span, message);
        if declared.contains(required.last()) {
            before
        } else {
            before.push(Diagnostic::spec_warning(span, message(required.last())))
        }
    }
}

/// The warnings for the capabilities that the first `count` of a root's
/// execution modes need and the root does not declare.
pub open spec fn spec_modes_missing(
    grammar: &Grammar,
    modes: Seq<ExecutionMode>,
    declared: Set<Capability>,
    span: Span,
    count: int,
) -> Seq<Diagnostic>
    decreases count,
{
    if count <= 0 {
        Seq::empty()
    } else {
        spec_modes_missing(grammar, modes, declared, span, count - 1) + spec_missing(
            grammar.spec_mode_capabilities(modes[count - 1]),
            declared,
            span,
            |capability: Capability|
                Message::ModeRequiresCapability { capability, mode: (count - 1) as usize },
        )
    }
}

/// The warnings for the capabilities that an execution model and
/// execution modes need and that are not among `declared`: those of the
/// model first, then those of each mode in turn.
pub open spec fn spec_check_capabilities(
    grammar: &Grammar,
    declared: Set<Capability>,
    model: ExecutionModel,
    modes: Seq<ExecutionMode>,
    span: Span,
) -> Seq<Diagnostic> {
    spec_missing(
        grammar.spec_model_capabilities(model),
        declared,
        span,
        spec_requirement_message(Some(model), 0),
    ) + spec_modes_missing(grammar, modes, declared, span, modes.len() as int)
}

/// Adds, to `diagnostics`, a warning for each of `required` that is not
/// among `declared`.
fn warn_missing(
    required: &Vec<Capability>,
    declared: &BTreeSet<Capability>,
    span: Span,
    model: Option<ExecutionModel>,
    mode: usize,
    diagnostics: &mut Vec<Diagnostic>,
)
    ensures
        final(diagnostics)@ == old(diagnostics)@ + spec_missing(
            required@,
            declared@,
            span,
            spec_requirement_message(model, mode),
        ),
{
    proof {
        lemma_numbers_are_ordered();
    }
    let mut i: usize = 0;
    while i < required.len()
        invariant
            numbers_are_ordered(),
            i <= required@.len(),
            diagnostics@ == old(diagnostics)@ + spec_missing(
                required@.take(i as int),
                declared@,
                span,
                spec_requirement_message(model, mode),
            ),
        decreases required@.len() - i,
    {
        assert(required@.take(i + 1).drop_last() =~= required@.take(i as int));
        let capability: u32 = required[i];
        if !declared.contains(&capability) {
            let message = match model {
                Some(model) => Message::ModelRequiresCapability { capability, model },
                None => Message::ModeRequiresCapability { capability, mode },
            };
            diagnostics.push(Diagnostic::warning(span, message));
        }
        assert(diagnostics@ =~= old(diagnostics)@ + spec_missing(
            required@.take(i + 1),
            declared@,
            span,
            spec_requirement_message(model, mode),
        ));
        i = i + 1;
    }
    assert(required@.take(required@.len() as int) =~= required@);
}

/// The message about a capability that an execution model needs, or, where
/// no model is given, that the execution mode at a position needs.
pub open spec fn spec_requirement_message(model: Option<ExecutionModel>, mode: usize) -> spec_fn(
    Capability,
) -> Message {
    |capability: Capability|
        match model {
            Some(model) => Message::ModelRequiresCapability { capability, model },
            None => Message::ModeRequiresCapability { capability, mode },
        }
}

impl Root {
    /// A root without capabilities and execution modes.
    pub fn new(did: DefId, execution_model: ExecutionModel) -> (root: Root)
        ensures
            root.did == did,
            root.capabilities@ == Set::<Capability>::empty(),
            root.execution_model == execution_model,
            root.execution_modes@ == Seq::<ExecutionMode>::empty(),
    {
        Root { did, capabilities: BTreeSet::new(), execution_model, execution_modes: Vec::new() }
    }

    /// The execution model.
    pub fn exe_model(&self) -> (model: ExecutionModel)
        ensures
            model == self.execution_model,
    {
        self.execution_model
    }

    /// Declares the capability called `name`.
    pub fn parse_cap(
        &mut self,
        grammar: &Grammar,
        span: Span,
        name: &str,
        diagnostics: &mut Vec<Diagnostic>,
    )
        requires
            grammar.wf(),
        ensures
            final(self).capabilities@ == spec_parse_cap(
                grammar,
                old(self).capabilities@,
                span,
                name@,
            ).0,
            final(diagnostics)@ == spec_emit(
                old(diagnostics)@,
                spec_parse_cap(grammar, old(self).capabilities@, span, name@).1,
            ),
            final(self).did == old(self).did,
            final(self).execution_model == old(self).execution_model,
            final(self).execution_modes == old(self).execution_modes,
    {
        proof {
            lemma_numbers_are_ordered();
        }
        match grammar.capability_named(name) {
            Some(capability) => {
                if !self.capabilities.insert(capability) {
                    diagnostics.push(
                        Diagnostic::warning(span, Message::DuplicateCapability { capability }),
                    );
                    assert(self.capabilities@ =~= old(self).capabilities@);
                }
            },
            None => {
                diagnostics.push(Diagnostic::error(span, Message::UnknownCapability));
            },
        }
    }

    /// Reads the item `capabilities(..)`, a list of capability words, or
    /// `capabilities = ".."`, a single capability.
    pub fn parse_caps(
        &mut self,
        grammar: &Grammar,
        item: &MetaItem,
        diagnostics: &mut Vec<Diagnostic>,
    )
        requires
            grammar.wf(),
        ensures
            final(self).capabilities@ == spec_parse_caps(grammar, old(self).capabilities@, *item).0,
            final(diagnostics)@ == old(diagnostics)@ + spec_parse_caps(
                grammar,
                old(self).capabilities@,
                *item,
            ).1,
            final(self).did == old(self).did,
            final(self).execution_model == old(self).execution_model,
            final(self).execution_modes == old(self).execution_modes,
    {
        let mut span: Span = item.span;
        match &item.kind {
            MetaItemKind::List(list) => {
                let mut i: usize = 0;
                let mut stopped: bool = false;
                while i < list.len() && !stopped
                    invariant
                        grammar.wf(),
                        i <= list@.len(),
                        self.did == old(self).did,
                        self.execution_model == old(self).execution_model,
                        self.execution_modes == old(self).execution_modes,
                        ({
                            let read = spec_parse_cap_words(
                                grammar,
                                old(self).capabilities@,
                                list@.take(i as int),
                            );
                            &&& self.capabilities@ == read.capabilities
                            &&& diagnostics@ == old(diagnostics)@ + read.diagnostics
                            &&& stopped == (read.stopped is Some)
                            &&& stopped ==> read.stopped == Some(span)
                        }),
                    decreases list@.len() - i + (if stopped { 0int } else { 1int }),
                {
                    assert(list@.take(i + 1).drop_last() =~= list@.take(i as int));
                    let mi = &list[i];
                    match mi {
                        NestedMetaItem::MetaItem(word) => {
                            if word.is_word() {
                                self.parse_cap(grammar, word.span, word.name_or_empty(), diagnostics);
                                assert(diagnostics@ =~= old(diagnostics)@ + spec_parse_cap_words(
                                    grammar,
                                    old(self).capabilities@,
                                    list@.take(i + 1),
                                ).diagnostics);
                            } else {
                                span = mi.span();
                                stopped = true;
                            }
                        },
                        NestedMetaItem::Literal(_, _) => {
                            span = mi.span();
                            stopped = true;
                        },
                    }
                    i = i + 1;
                }
                proof {
                    lemma_cap_words_stopped(
                        grammar,
                        old(self).capabilities@,
                        list@,
                        i as int,
                    );
                }
                if !stopped {
                    return ;
                }
            },
            MetaItemKind::Word => {},
            MetaItemKind::NameValue(lit) => {
                match lit.as_str() {
                    Some(name) => {
                        self.parse_cap(grammar, item.span, name, diagnostics);
                        assert(diagnostics@ =~= old(diagnostics)@ + spec_parse_caps(
                            grammar,
                            old(self).capabilities@,
                            *item,
                        ).1);
                        return ;
                    },
                    None => {},
                }
            },
        }
        diagnostics.push(Diagnostic::error(span, Message::CapabilitiesExpectsWords));
        assert(diagnostics@ =~= old(diagnostics)@ + spec_parse_caps(
            grammar,
            old(self).capabilities@,
            *item,
        ).1);
    }

    /// The extensions that the root needs, each once and in ascending
    /// order: those of its capabilities, those of its execution model and
    /// those of its execution modes.
    pub fn required_extensions(&self, grammar: &Grammar) -> (out: Vec<String>)
        requires
            grammar.wf(),
        ensures
            spec_ascending(out@),
            spec_texts(out@) == spec_required_extensions(
                grammar,
                self.capabilities@,
                self.execution_model,
                self.execution_modes@,
            ),
    {
        proof {
            lemma_numbers_are_ordered();
        }
        let mut out: Vec<String> = Vec::new();
        let count: u32 = grammar.capability_count();
        let mut c: u32 = 0;
        while c < count
            invariant
                numbers_are_ordered(),
                c <= count,
                count == grammar.spec_capabilities().len(),
                spec_ascending(out@),
                spec_texts(out@) == spec_capability_extensions(grammar, self.capabilities@, c as int),
            decreases count - c,
        {
            if self.capabilities.contains(&c) {
                match grammar.capability_info(c) {
                    Some(info) => {
                        add_extensions(&mut out, info.required_extensions.as_slice());
                    },
                    None => {},
                }
            }
            c = c + 1;
        }
        let ghost of_capabilities = spec_texts(out@);
        add_extensions(&mut out, grammar.model_extension_names(self.execution_model));
        let ghost of_model = spec_texts(out@);
        let mut m: usize = 0;
        while m < self.execution_modes.len()
            invariant
                m <= self.execution_modes@.len(),
                spec_ascending(out@),
                spec_texts(out@) == of_model.union(
                    spec_mode_extensions(grammar, self.execution_modes@, m as int),
                ),
            decreases self.execution_modes@.len() - m,
        {
            add_extensions(&mut out, grammar.mode_extension_names(&self.execution_modes[m]));
            assert(spec_texts(out@) =~= of_model.union(
                spec_mode_extensions(grammar, self.execution_modes@, m + 1),
            ));
            m = m + 1;
        }
        assert(of_model.union(Set::<Seq<char>>::empty()) =~= of_model);
        out
    }

    /// Warns of each capability that the execution model or one of the
    /// execution modes needs and that is not declared. The warnings are
    /// about `span`, the place of the root.
    pub fn check_capabilities(&self, grammar: &Grammar, span: Span, diagnostics: &mut Vec<Diagnostic>)
        ensures
            final(diagnostics)@ == old(diagnostics)@ + spec_check_capabilities(
                grammar,
                self.capabilities@,
                self.execution_model,
                self.execution_modes@,
                span,
            ),
    {
        match grammar.model_requirements(self.execution_model) {
            Some(needs) => {
                warn_missing(
                    &needs.required_capabilities,
                    &self.capabilities,
                    span,
                    Some(self.execution_model),
                    0,
                    diagnostics,
                );
            },
            None => {
                assert(diagnostics@ =~= old(diagnostics)@ + Seq::<Diagnostic>::empty());
            },
        }
        let ghost after_model = diagnostics@;
        let mut i: usize = 0;
        while i < self.execution_modes.len()
            invariant
                i <= self.execution_modes@.len(),
                diagnostics@ == after_model + spec_modes_missing(
                    grammar,
                    self.execution_modes@,
                    self.capabilities@,
                    span,
                    i as int,
                ),
            decreases self.execution_modes@.len() - i,
        {
            let ghost before = diagnostics@;
            match grammar.mode_requirements(&self.execution_modes[i]) {
                Some(needs) => {
                    warn_missing(
                        &needs.required_capabilities,
                        &self.capabilities,
                        span,
                        None,
                        i,
                        diagnostics,
                    );
                },
                None => {
                    assert(diagnostics@ =~= before + Seq::<Diagnostic>::empty());
                },
            }
            assert(spec_requirement_message(None, i) == (|capability: Capability|
                Message::ModeRequiresCapability { capability, mode: i }));
            assert(diagnostics@ =~= after_model + spec_modes_missing(
                grammar,
                self.execution_modes@,
                self.capabilities@,
                span,
                i + 1,
            ));
            i = i + 1;
        }
        assert(diagnostics@ =~= old(diagnostics)@ + spec_check_capabilities(
            grammar,
            self.capabilities@,
            self.execution_model,
            self.execution_modes@,
            span,
        ));
    }
}

/// The texts of some names, as a set.
pub open spec fn spec_texts(names: Seq<String>) -> Set<Seq<char>>
    decreases names.len(),
{
    if names.len() == 0 {
        Set::empty()
    } else {
        spec_texts(names.drop_last()).insert(names.last()@)
    }
}

/// Whether some names stand in ascending order: each comes before all
/// that follow it, so that none stands twice.
pub open spec fn spec_ascending(names: Seq<String>) -> bool {
    forall|i: int, j: int|
        0 <= i < j < names.len() ==> spec_text_before(#[trigger] names[i]@, #[trigger] names[j]@)
}

/// Names in ascending order hold each text once.
pub proof fn lemma_ascending_holds_each_once(names: Seq<String>, i: int, j: int)
    requires
        spec_ascending(names),
        0 <= i < names.len(),
        0 <= j < names.len(),
        i != j,
    ensures
        names[i]@ != names[j]@,
{
    lemma_text_before_irreflexive(names[i]@);
    if i < j {
        assert(spec_text_before(names[i]@, names[j]@));
    } else {
        assert(spec_text_before(names[j]@, names[i]@));
    }
}

/// The text of each name is among the texts of the names.
pub proof fn lemma_text_is_member(names: Seq<String>, k: int)
    requires
        0 <= k < names.len(),
    ensures
        spec_texts(names).contains(names[k]@),
    decreases names.len(),
{
    if k < names.len() - 1 {
        lemma_text_is_member(names.drop_last(), k);
    }
}

/// A text among the texts of some names is the text of one of them.
pub proof fn lemma_member_has_index(names: Seq<String>, text: Seq<char>) -> (k: int)
    requires
        spec_texts(names).contains(text),
    ensures
        0 <= k < names.len(),
        names[k]@ == text,
    decreases names.len(),
{
    if names.last()@ == text {
        names.len() - 1
    } else {
        lemma_member_has_index(names.drop_last(), text)
    }
}

/// Putting a name among some names adds its text to theirs.
pub proof fn lemma_texts_of_insert(names: Seq<String>, at: int, name: String)
    requires
        0 <= at <= names.len(),
    ensures
        spec_texts(names.insert(at, name)) == spec_texts(names).insert(name@),
{
    let longer = names.insert(at, name);
    names.insert_ensures(at, name);
    assert forall|text: Seq<char>| spec_texts(longer).contains(text) implies spec_texts(
        names,
    ).insert(name@).contains(text) by {
        let k = lemma_member_has_index(longer, text);
        if k < at {
            lemma_text_is_member(names, k);
        } else if k > at {
            assert(longer[(k - 1) + 1] == names[k - 1]);
            lemma_text_is_member(names, k - 1);
        }
    }
    assert forall|text: Seq<char>| spec_texts(names).insert(name@).contains(text) implies spec_texts(
        longer,
    ).contains(text) by {
        if text == name@ {
            lemma_text_is_member(longer, at);
        } else {
            let k = lemma_member_has_index(names, text);
            if k < at {
                assert(longer[k] == names[k]);
                lemma_text_is_member(longer, k);
            } else {
                assert(longer[k + 1] == names[k]);
                lemma_text_is_member(longer, k + 1);
            }
        }
    }
    assert(spec_texts(longer) =~= spec_texts(names).insert(name@));
}

/// The extensions that the capabilities with a number below `bound` among
/// `capabilities` need.
pub open spec fn spec_capability_extensions(
    grammar: &Grammar,
    capabilities: Set<Capability>,
    bound: int,
) -> Set<Seq<char>>
    decreases bound,
{
    if bound <= 0 {
        Set::empty()
    } else {
        let below = spec_capability_extensions(grammar, capabilities, bound - 1);
        if capabilities.contains((bound - 1) as u32) && grammar.spec_knows((bound - 1) as u32) {
            below.union(
                spec_texts(grammar.spec_capabilities()[bound - 1]->0.required_extensions@),
            )
        } else {
            below
        }
    }
}

/// The extensions that the first `count` of `modes` need.
pub open spec fn spec_mode_extensions(grammar: &Grammar, modes: Seq<ExecutionMode>, count: int) -> Set<
    Seq<char>,
>
    decreases count,
{
    if count <= 0 {
        Set::empty()
    } else {
        spec_mode_extensions(grammar, modes, count - 1).union(
            spec_texts(grammar.spec_mode_extension_names(modes[count - 1])),
        )
    }
}

/// The extensions that a root needs: those of its capabilities that the
/// tables know, those of its execution model and those of its execution
/// modes.
pub open spec fn spec_required_extensions(
    grammar: &Grammar,
    capabilities: Set<Capability>,
    model: ExecutionModel,
    modes: Seq<ExecutionMode>,
) -> Set<Seq<char>> {
    spec_capability_extensions(
        grammar,
        capabilities,
        grammar.spec_capabilities().len() as int,
    ).union(spec_texts(grammar.spec_model_extension_names(model))).union(
        spec_mode_extensions(grammar, modes, modes.len() as int),
    )
}

/// Puts `name` in its place among the names `out`, which stand in
/// ascending order, unless a name with its text stands there already.
fn insert_extension(out: &mut Vec<String>, name: &String)
    requires
        spec_ascending(old(out)@),
    ensures
        spec_ascending(final(out)@),
        spec_texts(final(out)@) == spec_texts(old(out)@).insert(name@),
{
    let mut i: usize = 0;
    let mut placed: bool = false;
    while i < out.len() && !placed
        invariant
            out@ == old(out)@,
            i <= out@.len(),
            forall|k: int| 0 <= k < i ==> spec_text_before(#[trigger] out@[k]@, name@),
            placed ==> i < out@.len() && !spec_text_before(out@[i as int]@, name@),
        decreases out@.len() - i + (if placed { 0int } else { 1int }),
    {
        if text_before(out[i].as_str(), name.as_str()) {
            i = i + 1;
        } else {
            placed = true;
        }
    }
    if placed && crate::meta::same_text(out[i].as_str(), name.as_str()) {
        proof {
            lemma_text_is_member(out@, i as int);
            assert(spec_texts(out@) =~= spec_texts(out@).insert(name@));
        }
        return ;
    }
    let ghost before = out@;
    out.insert(i, name.clone());
    proof {
        before.insert_ensures(i as int, *name);
        lemma_texts_of_insert(before, i as int, *name);
        if placed {
            lemma_text_before_total(name@, before[i as int]@);
        }
        assert forall|x: int, y: int| 0 <= x < y < out@.len() implies spec_text_before(
            #[trigger] out@[x]@,
            #[trigger] out@[y]@,
        ) by {
            if y < i {
                assert(out@[x] == before[x] && out@[y] == before[y]);
            } else if y == i {
                assert(out@[x] == before[x]);
            } else {
                assert(out@[(y - 1) + 1] == before[y - 1]);
                if x < i {
                    assert(out@[x] == before[x]);
                } else if x == i {
                    assert(spec_text_before(name@, before[i as int]@));
                    if y - 1 > i {
                        assert(spec_text_before(before[i as int]@, before[y - 1]@));
                        lemma_text_before_transitive(name@, before[i as int]@, before[y - 1]@);
                    }
                } else {
                    assert(out@[(x - 1) + 1] == before[x - 1]);
                }
            }
        }
    }
}

/// Puts each of `extensions` in its place among the names `out`, which
/// stand in ascending order.
fn add_extensions(out: &mut Vec<String>, extensions: &[String])
    requires
        spec_ascending(old(out)@),
    ensures
        spec_ascending(final(out)@),
        spec_texts(final(out)@) == spec_texts(old(out)@).union(spec_texts(extensions@)),
{
    let mut i: usize = 0;
    while i < extensions.len()
        invariant
            i <= extensions@.len(),
            spec_ascending(out@),
            spec_texts(out@) == spec_texts(old(out)@).union(spec_texts(extensions@.take(i as int))),
        decreases extensions@.len() - i,
    {
        assert(extensions@.take(i + 1).drop_last() =~= extensions@.take(i as int));
        insert_extension(out, &extensions[i]);
        assert(spec_texts(out@) =~= spec_texts(old(out)@).union(
            spec_texts(extensions@.take(i + 1)),
        ));
        i = i + 1;
    }
    assert(extensions@.take(extensions@.len() as int) =~= extensions@);
}

/// Once the reading of a list of capability words has stopped, the rest of
/// the list changes nothing.
pub proof fn lemma_cap_words_stopped(
    grammar: &Grammar,
    capabilities: Set<Capability>,
    words: Seq<NestedMetaItem>,
    read: int,
)
    requires
        0 <= read <= words.len(),
        read == words.len() || spec_parse_cap_words(grammar, capabilities, words.take(read)).stopped
            is Some,
    ensures
        spec_parse_cap_words(grammar, capabilities, words) == spec_parse_cap_words(
            grammar,
            capabilities,
            words.take(read),
        ),
    decreases words.len() - read,
{
    if read == words.len() {
        assert(words.take(read) =~= words);
    } else {
        assert(words.take(read + 1).drop_last() =~= words.take(read));
        lemma_cap_words_stopped(grammar, capabilities, words, read + 1);
    }
}

/// What reading the dimensions of a workgroup size comes to.
pub struct LocalSizeRead {
    pub x: Option<u32>,
    pub y: Option<u32>,
    pub z: Option<u32>,
    pub diagnostics: Seq<Diagnostic>,
    /// Whether an element was found that ends the reading of the whole
    /// item.
    pub abandoned: bool,
}

/// The reading after one more element of `local_size(..)`. An element is
/// to be `x = n`, `y = n` or `z = n` with an integer literal; one that is
/// not ends the reading with an error. A number that does not fit in 32
/// bits is an error and leaves its dimension as it was.
pub open spec fn spec_local_size_dim(read: LocalSizeRead, dim: NestedMetaItem) -> LocalSizeRead {
    match dim {
        NestedMetaItem::Literal(_, span) => LocalSizeRead {
            diagnostics: read.diagnostics.push(
                Diagnostic::spec_error(span, Message::UnsupportedLiteral),
            ),
            abandoned: true,
            ..read
        },
        NestedMetaItem::MetaItem(item) => if !(item.name@ == "x"@ || item.name@ == "y"@ || item.name@
            == "z"@) {
            LocalSizeRead {
                diagnostics: read.diagnostics.push(
                    Diagnostic::spec_error(item.span, Message::UnknownLocalSizeDim),
                ),
                abandoned: true,
                ..read
            }
        } else {
            match item.kind {
                MetaItemKind::NameValue(Lit::Int(size)) => if size > u32::MAX {
                    LocalSizeRead {
                        diagnostics: read.diagnostics.push(
                            Diagnostic::spec_error(item.span, Message::IntegerOutOfRange),
                        ),
                        ..read
                    }
                } else if item.name@ == "x"@ {
                    LocalSizeRead { x: Some(size as u32), ..read }
                } else if item.name@ == "y"@ {
                    LocalSizeRead { y: Some(size as u32), ..read }
                } else {
                    LocalSizeRead { z: Some(size as u32), ..read }
                },
                _ => LocalSizeRead {
                    diagnostics: read.diagnostics.push(
                        Diagnostic::spec_error(item.span, Message::ExpectedIntegerLiteral),
                    ),
                    abandoned: true,
                    ..read
                },
            }
        },
    }
}

/// The reading of the elements of `local_size(..)`, up to the first that
/// ends it.
pub open spec fn spec_local_size_dims(dims: Seq<NestedMetaItem>) -> LocalSizeRead
    decreases dims.len(),
{
    if dims.len() == 0 {
        LocalSizeRead { x: None, y: None, z: None, diagnostics: Seq::empty(), abandoned: false }
    } else {
        let before = spec_local_size_dims(dims.drop_last());
        if before.abandoned {
            before
        } else {
            spec_local_size_dim(before, dims.last())
        }
    }
}

/// Once the reading of the elements of `local_size(..)` was ended, the
/// rest of them changes nothing.
pub proof fn lemma_local_size_abandoned(dims: Seq<NestedMetaItem>, read: int)
    requires
        0 <= read <= dims.len(),
        read == dims.len() || spec_local_size_dims(dims.take(read)).abandoned,
    ensures
        spec_local_size_dims(dims) == spec_local_size_dims(dims.take(read)),
    decreases dims.len() - read,
{
    if read == dims.len() {
        assert(dims.take(read) =~= dims);
    } else {
        assert(dims.take(read + 1).drop_last() =~= dims.take(read));
        lemma_local_size_abandoned(dims, read + 1);
    }
}

/// The errors for the dimensions that a reading of `local_size(..)` lacks,
/// in the order x, y, z.
pub open spec fn spec_missing_dims(read: LocalSizeRead, span: Span) -> Seq<Diagnostic> {
    spec_emit(
        spec_emit(
            spec_emit(
                Seq::empty(),
                if read.x is None {
                    Some(Diagnostic::spec_error(span, Message::LocalSizeMissingDim { dim: 0 }))
                } else {
                    None
                },
            ),
            if read.y is None {
                Some(Diagnostic::spec_error(span, Message::LocalSizeMissingDim { dim: 1 }))
            } else {
                None
            },
        ),
        if read.z is None {
            Some(Diagnostic::spec_error(span, Message::LocalSizeMissingDim { dim: 2 }))
        } else {
            None
        },
    )
}

/// One error for each workgroup size among the first `count` of `modes`.
pub open spec fn spec_given_twice(modes: Seq<ExecutionMode>, span: Span, count: int) -> Seq<
    Diagnostic,
>
    decreases count,
{
    if count <= 0 {
        Seq::empty()
    } else {
        spec_emit(
            spec_given_twice(modes, span, count - 1),
            if modes[count - 1] is LocalSize {
                Some(Diagnostic::spec_error(span, Message::LocalSizeGivenTwice))
            } else {
                None
            },
        )
    }
}

/// What reading the attribute items of a root has come to.
pub struct RootRead {
    pub capabilities: Set<Capability>,
    pub modes: Seq<ExecutionMode>,
    pub diagnostics: Seq<Diagnostic>,
}

/// The reading after the item `local_size(..)`. The item adds a workgroup
/// size to the modes where its elements give all of x, y and z; an item
/// that is no list, an element that ends the reading and a missing
/// dimension are errors and add nothing. A workgroup size that was given
/// before is an error for each time, and the new one is added all the
/// same.
pub open spec fn spec_local_size(read: RootRead, item: MetaItem) -> RootRead {
    match item.kind {
        MetaItemKind::List(dims) => {
            let size = spec_local_size_dims(dims@);
            if size.abandoned {
                RootRead { diagnostics: read.diagnostics + size.diagnostics, ..read }
            } else if size.x is None || size.y is None || size.z is None {
                RootRead {
                    diagnostics: read.diagnostics + size.diagnostics + spec_missing_dims(
                        size,
                        item.span,
                    ),
                    ..read
                }
            } else {
                RootRead {
                    modes: read.modes.push(
                        ExecutionMode::LocalSize { x: size.x->0, y: size.y->0, z: size.z->0 },
                    ),
                    diagnostics: read.diagnostics + size.diagnostics + spec_given_twice(
                        read.modes,
                        item.span,
                        read.modes.len() as int,
                    ),
                    ..read
                }
            }
        },
        _ => RootRead {
            diagnostics: read.diagnostics.push(
                Diagnostic::spec_error(item.span, Message::LocalSizeExpectsList),
            ),
            ..read
        },
    }
}

/// The reading after one more attribute item of a root: `capabilities`
/// declares capabilities, `local_size` gives a workgroup size, and every
/// other item is an error.
pub open spec fn spec_root_item(grammar: &Grammar, read: RootRead, item: NestedMetaItem) -> RootRead {
    match item {
        NestedMetaItem::MetaItem(named) if named.name@ == "capabilities"@ => {
            let declared = spec_parse_caps(grammar, read.capabilities, named);
            RootRead {
                capabilities: declared.0,
                diagnostics: read.diagnostics + declared.1,
                ..read
            }
        },
        NestedMetaItem::MetaItem(named) if named.name@ == "local_size"@ => spec_local_size(
            read,
            named,
        ),
        other => RootRead {
            diagnostics: read.diagnostics.push(
                Diagnostic::spec_error(other.spec_span(), Message::UnknownAttribute),
            ),
            ..read
        },
    }
}

/// The reading of the attribute items of a root, one after the other.
pub open spec fn spec_root_items(grammar: &Grammar, items: Seq<NestedMetaItem>) -> RootRead
    decreases items.len(),
{
    if items.len() == 0 {
        RootRead { capabilities: Set::empty(), modes: Seq::empty(), diagnostics: Seq::empty() }
    } else {
        spec_root_item(grammar, spec_root_items(grammar, items.drop_last()), items.last())
    }
}

/// What the attribute items of a root come to: the capabilities that they
/// declare with all that those declare along with themselves, the
/// execution modes that they give, and what there is to say of them, with
/// the warnings of `Root::check_capabilities` at the end where checking is
/// asked for.
pub open spec fn spec_root_attrs(
    grammar: &Grammar,
    items: Seq<NestedMetaItem>,
    span: Span,
    model: ExecutionModel,
    perform_checking: bool,
) -> RootRead {
    let read = spec_root_items(grammar, items);
    let capabilities = crate::closure::spec_closure(grammar, read.capabilities);
    RootRead {
        capabilities,
        modes: read.modes,
        diagnostics: if perform_checking {
            read.diagnostics + spec_check_capabilities(grammar, capabilities, model, read.modes, span)
        } else {
            read.diagnostics
        },
    }
}

/// Reads the elements of `local_size(..)` into the workgroup size that
/// they give. `None` where an element ended the reading or a dimension is
/// missing.
fn parse_local_size(
    dims: &Vec<NestedMetaItem>,
    span: Span,
    diagnostics: &mut Vec<Diagnostic>,
) -> (size: Option<(u32, u32, u32)>)
    ensures
        ({
            let read = spec_local_size_dims(dims@);
            &&& size == if read.abandoned || read.x is None || read.y is None || read.z is None {
                None
            } else {
                Some((read.x->0, read.y->0, read.z->0))
            }
            &&& final(diagnostics)@ == old(diagnostics)@ + read.diagnostics + if read.abandoned {
                Seq::empty()
            } else {
                spec_missing_dims(read, span)
            }
        }),
{
    let mut x: Option<u32> = None;
    let mut y: Option<u32> = None;
    let mut z: Option<u32> = None;
    let mut i: usize = 0;
    while i < dims.len()
        invariant
            i <= dims@.len(),
            ({
                let read = spec_local_size_dims(dims@.take(i as int));
                &&& !read.abandoned
                &&& read.x == x
                &&& read.y == y
                &&& read.z == z
                &&& diagnostics@ == old(diagnostics)@ + read.diagnostics
            }),
        decreases dims@.len() - i,
    {
        assert(dims@.take(i + 1).drop_last() =~= dims@.take(i as int));
        let ghost before = spec_local_size_dims(dims@.take(i as int));
        let ghost after = spec_local_size_dim(before, dims@[i as int]);
        let dim = match &dims[i] {
            NestedMetaItem::MetaItem(dim) => dim,
            NestedMetaItem::Literal(_, at) => {
                diagnostics.push(Diagnostic::error(*at, Message::UnsupportedLiteral));
                proof {
                    assert(diagnostics@ =~= old(diagnostics)@ + after.diagnostics);
                    lemma_local_size_abandoned(dims@, i + 1);
                    assert(diagnostics@ =~= old(diagnostics)@ + after.diagnostics + Seq::<
                        Diagnostic,
                    >::empty());
                }
                return None;
            },
        };
        let which: u8 = if dim.has_name("x") {
            0
        } else if dim.has_name("y") {
            1
        } else if dim.has_name("z") {
            2
        } else {
            diagnostics.push(Diagnostic::error(dim.span, Message::UnknownLocalSizeDim));
            proof {
                assert(diagnostics@ =~= old(diagnostics)@ + after.diagnostics);
                lemma_local_size_abandoned(dims@, i + 1);
                assert(diagnostics@ =~= old(diagnostics)@ + after.diagnostics + Seq::<
                    Diagnostic,
                >::empty());
            }
            return None;
        };
        let size: u128 = match dim.name_value_literal() {
            Some(Lit::Int(size)) => *size,
            _ => {
                diagnostics.push(Diagnostic::error(dim.span, Message::ExpectedIntegerLiteral));
                proof {
                    assert(diagnostics@ =~= old(diagnostics)@ + after.diagnostics);
                    lemma_local_size_abandoned(dims@, i + 1);
                    assert(diagnostics@ =~= old(diagnostics)@ + after.diagnostics + Seq::<
                        Diagnostic,
                    >::empty());
                }
                return None;
            },
        };
        if size > u32::MAX as u128 {
            diagnostics.push(Diagnostic::error(dim.span, Message::IntegerOutOfRange));
        } else if which == 0 {
            x = Some(size as u32);
        } else if which == 1 {
            y = Some(size as u32);
        } else {
            z = Some(size as u32);
        }
        proof {
            reveal_strlit("x");
            reveal_strlit("y");
            reveal_strlit("z");
            assert(diagnostics@ =~= old(diagnostics)@ + after.diagnostics);
        }
        i = i + 1;
    }
    assert(dims@.take(dims@.len() as int) =~= dims@);
    let ghost read = spec_local_size_dims(dims@);
    let ghost read_so_far = diagnostics@;
    if x.is_none() {
        diagnostics.push(Diagnostic::error(span, Message::LocalSizeMissingDim { dim: 0 }));
    }
    if y.is_none() {
        diagnostics.push(Diagnostic::error(span, Message::LocalSizeMissingDim { dim: 1 }));
    }
    if z.is_none() {
        diagnostics.push(Diagnostic::error(span, Message::LocalSizeMissingDim { dim: 2 }));
    }
    assert(diagnostics@ =~= read_so_far + spec_missing_dims(read, span));
    assert(diagnostics@ =~= old(diagnostics)@ + read.diagnostics + spec_missing_dims(read, span));
    match (x, y, z) {
        (Some(x), Some(y), Some(z)) => Some((x, y, z)),
        _ => None,
    }
}

/// Reads the attribute items of the root `id` at `span`: declares the
/// capabilities of `capabilities(..)` with all that they declare along
/// with themselves, takes the workgroup size of `local_size(..)`, and,
/// where checking is asked for, warns of each capability that the
/// execution model or a mode needs and that is not declared.
pub fn geobacter_root_attrs(
    grammar: &Grammar,
    items: &[NestedMetaItem],
    id: DefId,
    span: Span,
    model: ExecutionModel,
    perform_checking: bool,
    diagnostics: &mut Vec<Diagnostic>,
) -> (out: Root)
    requires
        grammar.wf(),
    ensures
        out.did == id,
        out.execution_model == model,
        out.capabilities@ == spec_root_attrs(grammar, items@, span, model, perform_checking).capabilities,
        out.execution_modes@ == spec_root_attrs(grammar, items@, span, model, perform_checking).modes,
        final(diagnostics)@ == old(diagnostics)@ + spec_root_attrs(
            grammar,
            items@,
            span,
            model,
            perform_checking,
        ).diagnostics,
{
    let mut out = Root::new(id, model);
    let mut i: usize = 0;
    while i < items.len()
        invariant
            grammar.wf(),
            i <= items@.len(),
            out.did == id,
            out.execution_model == model,
            ({
                let read = spec_root_items(grammar, items@.take(i as int));
                &&& out.capabilities@ == read.capabilities
                &&& out.execution_modes@ == read.modes
                &&& diagnostics@ == old(diagnostics)@ + read.diagnostics
            }),
        decreases items@.len() - i,
    {
        assert(items@.take(i + 1).drop_last() =~= items@.take(i as int));
        let ghost before = spec_root_items(grammar, items@.take(i as int));
        let ghost after = spec_root_item(grammar, before, items@[i as int]);
        let item = &items[i];
        match item {
            NestedMetaItem::MetaItem(named) => {
                if named.has_name("capabilities") {
                    out.parse_caps(grammar, named, diagnostics);
                } else if named.has_name("local_size") {
                    match named.meta_item_list() {
                        None => {
                            diagnostics.push(
                                Diagnostic::error(named.span, Message::LocalSizeExpectsList),
                            );
                        },
                        Some(dims) => {
                            match parse_local_size(dims, named.span, diagnostics) {
                                None => {},
                                Some((x, y, z)) => {
                                    let ghost read_dims = diagnostics@;
                                    let mut m: usize = 0;
                                    while m < out.execution_modes.len()
                                        invariant
                                            m <= out.execution_modes@.len(),
                                            out.execution_modes@ == before.modes,
                                            diagnostics@ == read_dims + spec_given_twice(
                                                before.modes,
                                                named.span,
                                                m as int,
                                            ),
                                        decreases out.execution_modes@.len() - m,
                                    {
                                        match &out.execution_modes[m] {
                                            ExecutionMode::LocalSize { .. } => {
                                                diagnostics.push(
                                                    Diagnostic::error(
                                                        named.span,
                                                        Message::LocalSizeGivenTwice,
                                                    ),
                                                );
                                            },
                                            _ => {},
                                        }
                                        assert(diagnostics@ =~= read_dims + spec_given_twice(
                                            before.modes,
                                            named.span,
                                            m + 1,
                                        ));
                                        m = m + 1;
                                    }
                                    let mode = ExecutionMode::LocalSize { x, y, z };
                                    out.execution_modes.push(mode);
                                },
                            }
                        },
                    }
                } else {
                    diagnostics.push(Diagnostic::error(item.span(), Message::UnknownAttribute));
                }
            },
            NestedMetaItem::Literal(_, _) => {
                diagnostics.push(Diagnostic::error(item.span(), Message::UnknownAttribute));
            },
        }
        assert(out.capabilities@ == after.capabilities);
        assert(out.execution_modes@ =~= after.modes);
        assert(diagnostics@ =~= old(diagnostics)@ + after.diagnostics);
        i = i + 1;
    }
    assert(items@.take(items@.len() as int) =~= items@);
    // Take our starting capabilities and transitively add all dep
    // capabilities.
    crate::closure::declare_implied(&mut out.capabilities, grammar);
    if perform_checking {
        out.check_capabilities(grammar, span, diagnostics);
    }
    assert(diagnostics@ =~= old(diagnostics)@ + spec_root_attrs(
        grammar,
        items@,
        span,
        model,
        perform_checking,
    ).diagnostics);
    out
}

} // verus!
