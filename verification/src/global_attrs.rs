//! What the attributes of a global say: the conditions under which it is
//! used, its builtin, its storage class and where it is bound.
//!
//! The conditions are expressions that the embedding parses and evaluates;
//! here they are carried as they come. For each attribute item the reader
//! says which of its parts is to be parsed as a condition, and then takes
//! the item together with what the parsing gave.

use vstd::prelude::*;
use std::borrow::Cow;
use crate::attrs::{
    spec_binding_for, spec_optional_diagnostics, spec_require_nums, DescriptorSetBinding,
};
use crate::meta::{Diagnostic, Message, MetaItem, MetaItemKind, NestedMetaItem, Span};
use crate::spirv::Names;

verus! {

/// What the attributes of a global say. `E` is the type of the conditions.
#[derive(Debug)]
pub struct GlobalAttrs<E> {
    /// Requirement on the use of this global.
    pub capabilities: Option<E>,
    pub exe_model: Option<E>,
    pub spirv_builtin: Option<u32>,
    pub storage_class_if: Vec<(E, u32)>,
    pub storage_class: Option<u32>,
    pub descriptor_set_desc: Option<DescriptorSetBinding>,
}

/// The attributes of a global with what was said while they were read.
pub struct GlobalRead<E> {
    pub capabilities: Option<E>,
    pub exe_model: Option<E>,
    pub spirv_builtin: Option<u32>,
    pub storage_class_if: Seq<(E, u32)>,
    pub storage_class: Option<u32>,
    pub descriptor_set_desc: Option<DescriptorSetBinding>,
    pub diagnostics: Seq<Diagnostic>,
    /// The error that ends the reading, if there was one.
    pub fatal: Option<Diagnostic>,
}

/// The condition and the storage class of `storage_class_if(condition,
/// class)`, where the item has this form.
pub open spec fn spec_class_if_parts(item: MetaItem) -> Option<(MetaItem, MetaItem)> {
    match item.kind {
        MetaItemKind::List(list) => if list@.len() == 2 {
            match (list@[0], list@[1]) {
                (NestedMetaItem::MetaItem(cond), NestedMetaItem::MetaItem(class)) => if class.spec_ident()
                    is Some {
                    Some((cond, class))
                } else {
                    None
                },
                _ => None,
            }
        } else {
            None
        },
        _ => None,
    }
}

/// The condition of `exe_model(condition)`, where the item has this form.
pub open spec fn spec_exe_model_part(item: MetaItem) -> Option<MetaItem> {
    match item.kind {
        MetaItemKind::List(list) => if list@.len() == 1 {
            match list@[0] {
                NestedMetaItem::MetaItem(cond) => Some(cond),
                _ => None,
            }
        } else {
            None
        },
        _ => None,
    }
}

/// The part of an attribute item that is to be parsed as a condition
/// before the item is read: the item `capabilities(..)` itself, unless
/// capabilities were read before; the condition of `storage_class_if(
/// condition, class)`; and the condition of `exe_model(condition)`.
pub open spec fn spec_condition_of(has_capabilities: bool, item: NestedMetaItem) -> Option<MetaItem> {
    match item {
        NestedMetaItem::MetaItem(named) => if named.name@ == "capabilities"@ {
            if has_capabilities {
                None
            } else {
                Some(named)
            }
        } else if named.name@ == "storage_class_if"@ {
            match spec_class_if_parts(named) {
                Some((cond, _)) => Some(cond),
                None => None,
            }
        } else if named.name@ == "exe_model"@ {
            spec_exe_model_part(named)
        } else {
            None
        },
        NestedMetaItem::Literal(_, _) => None,
    }
}

/// The reading with one more error.
pub open spec fn spec_with_error<E>(read: GlobalRead<E>, span: Span, message: Message) -> GlobalRead<
    E,
> {
    GlobalRead { diagnostics: read.diagnostics.push(Diagnostic::spec_error(span, message)), ..read }
}

/// The reading after `spirv_builtin = "name"`.
pub open spec fn spec_read_builtin<E>(read: GlobalRead<E>, item: MetaItem, builtins: &Names) -> GlobalRead<
    E,
> {
    match item.spec_value_str() {
        None => spec_with_error(read, item.span, Message::SpirvBuiltinNeedsValue),
        Some(name) => match builtins.spec_number(name) {
            None => spec_with_error(read, item.span, Message::UnknownSpirvBuiltin),
            Some(builtin) => if read.spirv_builtin is Some {
                spec_with_error(read, item.span, Message::SpirvBuiltinGivenTwice)
            } else {
                GlobalRead { spirv_builtin: Some(builtin), ..read }
            },
        },
    }
}

/// The reading after `storage_class_if(condition, class)`, whose condition
/// was parsed as `parsed`. The pair is added where the condition was
/// parsed and the class is known.
pub open spec fn spec_read_class_if<E>(
    read: GlobalRead<E>,
    item: MetaItem,
    parsed: Option<E>,
    storage_classes: &Names,
) -> GlobalRead<E> {
    match item.kind {
        MetaItemKind::List(list) => if list@.len() == 2 {
            match list@[0] {
                NestedMetaItem::Literal(_, span) => spec_with_error(
                    read,
                    span,
                    Message::UnsupportedLiteral,
                ),
                NestedMetaItem::MetaItem(_) => match list@[1] {
                    NestedMetaItem::MetaItem(class) => match class.spec_ident() {
                        Some(name) => match parsed {
                            Some(cond) => match storage_classes.spec_number(name) {
                                Some(number) => GlobalRead {
                                    storage_class_if: read.storage_class_if.push((cond, number)),
                                    ..read
                                },
                                None => spec_with_error(
                                    read,
                                    class.span,
                                    Message::UnexpectedStorageClass,
                                ),
                            },
                            None => read,
                        },
                        None => spec_with_error(read, class.span, Message::ExpectedWord),
                    },
                    NestedMetaItem::Literal(_, span) => spec_with_error(
                        read,
                        span,
                        Message::ExpectedWord,
                    ),
                },
            }
        } else {
            spec_with_error(read, item.span, Message::StorageClassIfExpectsTwo)
        },
        _ => spec_with_error(read, item.span, Message::StorageClassIfExpectsTwo),
    }
}

/// The reading after `storage_class = "name"` on the global at `span`,
/// whose attribute items are `items`. A global of a class that is bound
/// is given its binding, and ends the reading where it lacks its set or
/// binding number.
pub open spec fn spec_read_class<E>(
    read: GlobalRead<E>,
    item: MetaItem,
    storage_classes: &Names,
    items: Seq<NestedMetaItem>,
    span: Span,
) -> GlobalRead<E> {
    match item.spec_value_str() {
        None => spec_with_error(read, item.span, Message::StorageClassNeedsValue),
        Some(name) => match storage_classes.spec_number(name) {
            None => spec_with_error(read, item.span, Message::UnknownStorageClass),
            Some(class) => if read.storage_class is Some {
                spec_with_error(read, item.span, Message::StorageClassGivenTwice)
            } else if spec_binding_for(class, (0, 0)) is None {
                GlobalRead { storage_class: Some(class), ..read }
            } else {
                match spec_require_nums(items, span) {
                    Ok(nums) => GlobalRead {
                        storage_class: Some(class),
                        descriptor_set_desc: spec_binding_for(class, nums),
                        diagnostics: read.diagnostics + spec_optional_diagnostics(items),
                        ..read
                    },
                    Err(missing) => GlobalRead {
                        storage_class: Some(class),
                        diagnostics: read.diagnostics + spec_optional_diagnostics(items),
                        fatal: Some(missing),
                        ..read
                    },
                }
            },
        },
    }
}

/// The reading after `exe_model(condition)`, whose condition was parsed as
/// `parsed`. A second condition that was parsed is an error; one that was
/// not parsed takes the place of the first.
pub open spec fn spec_read_exe_model<E>(read: GlobalRead<E>, item: MetaItem, parsed: Option<E>) -> GlobalRead<
    E,
> {
    match item.kind {
        MetaItemKind::List(list) => if list@.len() == 1 {
            match list@[0] {
                NestedMetaItem::Literal(_, span) => spec_with_error(
                    read,
                    span,
                    Message::UnsupportedLiteral,
                ),
                NestedMetaItem::MetaItem(_) => if parsed is Some && read.exe_model is Some {
                    spec_with_error(read, item.span, Message::DuplicateExeModel)
                } else {
                    GlobalRead { exe_model: parsed, ..read }
                },
            }
        } else {
            spec_with_error(read, item.span, Message::ExeModelExpectsSingle)
        },
        _ => spec_with_error(read, item.span, Message::ExeModelExpectsList),
    }
}

/// The reading after one more attribute item of the global at `span`,
/// whose attribute items are `items`. `parsed` is what the parsing of the
/// item's condition gave.
pub open spec fn spec_read_item<E>(
    read: GlobalRead<E>,
    item: NestedMetaItem,
    parsed: Option<E>,
    builtins: &Names,
    storage_classes: &Names,
    items: Seq<NestedMetaItem>,
    span: Span,
) -> GlobalRead<E> {
    match item {
        NestedMetaItem::MetaItem(named) => if named.name@ == "capabilities"@ {
            if read.capabilities is Some {
                spec_with_error(read, named.span, Message::DuplicateCapabilities)
            } else {
                GlobalRead { capabilities: parsed, ..read }
            }
        } else if named.name@ == "spirv_builtin"@ {
            spec_read_builtin(read, named, builtins)
        } else if named.name@ == "storage_class_if"@ {
            spec_read_class_if(read, named, parsed, storage_classes)
        } else if named.name@ == "storage_class"@ {
            spec_read_class(read, named, storage_classes, items, span)
        } else if named.name@ == "exe_model"@ {
            spec_read_exe_model(read, named, parsed)
        } else if named.name@ == "set"@ || named.name@ == "binding"@ {
            read
        } else {
            spec_with_error(read, named.span, Message::UnknownAttribute)
        },
        NestedMetaItem::Literal(_, span) => spec_with_error(read, span, Message::UnknownAttribute),
    }
}

/// The message about a capability that the builtin of a global needs, or,
/// where no builtin is given, that the storage class `class` needs.
pub open spec fn spec_need_message(builtin: Option<u32>, class: u32) -> spec_fn(u32) -> Message {
    |capability: u32|
        match builtin {
            Some(builtin) => Message::BuiltinRequiresCapability { capability, builtin },
            None => Message::StorageClassRequiresCapability { capability, class },
        }
}

/// The warnings for those of the first `count` of `needs` of which `said`
/// says that they are not declared, in the order of `needs`.
pub open spec fn spec_undeclared(
    needs: Seq<u32>,
    said: Seq<bool>,
    span: Span,
    message: spec_fn(u32) -> Message,
    count: int,
) -> Seq<Diagnostic>
    decreases count,
{
    if count <= 0 {
        Seq::empty()
    } else {
        let before = spec_undeclared(needs, said, span, message, count - 1);
        if said[count - 1] {
            before
        } else {
            before.push(Diagnostic::spec_warning(span, message(needs[count - 1])))
        }
    }
}

/// Whether `said` holds, for each of `needs`, what `declared` said of it
/// under `condition`.
pub open spec fn spec_said<E, F: Fn(&E, u32) -> bool>(
    declared: F,
    condition: E,
    needs: Seq<u32>,
    said: Seq<bool>,
) -> bool {
    &&& said.len() == needs.len()
    &&& forall|k: int|
        0 <= k < needs.len() ==> call_ensures(declared, (&condition, needs[k]), #[trigger] said[k])
}

/// Asks `declared`, under `condition`, of each of `needs` and warns of
/// those of which it says no.
fn warn_undeclared<E, F>(
    condition: &E,
    needs: &[u32],
    declared: &F,
    span: Span,
    builtin: Option<u32>,
    class: u32,
    diagnostics: &mut Vec<Diagnostic>,
) -> (said: Ghost<Seq<bool>>) where F: Fn(&E, u32) -> bool
    requires
        forall|asked: &E, capability: u32| call_requires(*declared, (asked, capability)),
    ensures
        spec_said(*declared, *condition, needs@, said@),
        final(diagnostics)@ == old(diagnostics)@ + spec_undeclared(
            needs@,
            said@,
            span,
            spec_need_message(builtin, class),
            needs@.len() as int,
        ),
{
    let ghost mut said: Seq<bool> = Seq::empty();
    let mut i: usize = 0;
    assert(diagnostics@ =~= old(diagnostics)@ + Seq::<Diagnostic>::empty());
    while i < needs.len()
        invariant
            i <= needs@.len(),
            said.len() == i,
            forall|asked: &E, capability: u32| call_requires(*declared, (asked, capability)),
            forall|k: int|
                0 <= k < i ==> call_ensures(*declared, (condition, needs@[k]), #[trigger] said[k]),
            diagnostics@ == old(diagnostics)@ + spec_undeclared(
                needs@,
                said,
                span,
                spec_need_message(builtin, class),
                i as int,
            ),
        decreases needs@.len() - i,
    {
        let capability: u32 = needs[i];
        let answer: bool = declared(condition, capability);
        let ghost earlier = said;
        proof {
            said = earlier.push(answer);
            lemma_undeclared_agree(
                needs@,
                said,
                earlier,
                span,
                spec_need_message(builtin, class),
                i as int,
            );
        }
        if !answer {
            let message = match builtin {
                Some(builtin) => Message::BuiltinRequiresCapability { capability, builtin },
                None => Message::StorageClassRequiresCapability { capability, class },
            };
            diagnostics.push(Diagnostic::warning(span, message));
        }
        assert(diagnostics@ =~= old(diagnostics)@ + spec_undeclared(
            needs@,
            said,
            span,
            spec_need_message(builtin, class),
            i + 1,
        ));
        i = i + 1;
    }
    Ghost(said)
}

/// The warnings for the first needs depend on what was said of them alone.
pub proof fn lemma_undeclared_agree(
    needs: Seq<u32>,
    said: Seq<bool>,
    other: Seq<bool>,
    span: Span,
    message: spec_fn(u32) -> Message,
    count: int,
)
    requires
        forall|k: int| 0 <= k < count ==> said[k] == other[k],
    ensures
        spec_undeclared(needs, said, span, message, count) == spec_undeclared(
            needs,
            other,
            span,
            message,
            count,
        ),
    decreases count,
{
    if count > 0 {
        lemma_undeclared_agree(needs, said, other, span, message, count - 1);
    }
}

impl<E: Clone + Default> GlobalAttrs<E> {
    /// The capabilities that are looked at for the builtin: those that it
    /// needs, where the global has a builtin.
    pub open spec fn spec_builtin_needs(&self, builtin_needs: Seq<u32>) -> Seq<u32> {
        if self.spirv_builtin is Some {
            builtin_needs
        } else {
            Seq::empty()
        }
    }

    /// The capabilities that are looked at for the storage class: those
    /// that it needs, where the global has a storage class.
    pub open spec fn spec_class_needs(&self, class_needs: Seq<u32>) -> Seq<u32> {
        if self.storage_class is Some {
            class_needs
        } else {
            Seq::empty()
        }
    }

    /// Whether `after` is what there is to say after the check of the
    /// capabilities, where `declared` was asked under `condition` and said
    /// `builtin_said` of the needs of the builtin and `class_said` of the
    /// needs of the storage class. The condition is the one on the
    /// capabilities, where one was given. One warning is added for each
    /// need of which `declared` said no: for those of the builtin first,
    /// then for those of the storage class, each in their order.
    pub open spec fn spec_checked<F: Fn(&E, u32) -> bool>(
        &self,
        builtin_needs: Seq<u32>,
        class_needs: Seq<u32>,
        declared: F,
        span: Span,
        condition: E,
        builtin_said: Seq<bool>,
        class_said: Seq<bool>,
        before: Seq<Diagnostic>,
        after: Seq<Diagnostic>,
    ) -> bool {
        &&& self.capabilities matches Some(given) ==> condition == given
        &&& spec_said(declared, condition, self.spec_builtin_needs(builtin_needs), builtin_said)
        &&& spec_said(declared, condition, self.spec_class_needs(class_needs), class_said)
        &&& after == before + spec_undeclared(
            self.spec_builtin_needs(builtin_needs),
            builtin_said,
            span,
            spec_need_message(self.spirv_builtin, 0),
            self.spec_builtin_needs(builtin_needs).len() as int,
        ) + spec_undeclared(
            self.spec_class_needs(class_needs),
            class_said,
            span,
            spec_need_message(
                None,
                match self.storage_class {
                    Some(class) => class,
                    None => 0,
                },
            ),
            self.spec_class_needs(class_needs).len() as int,
        )
    }

    /// Asks `declared` under `condition` and warns, as `check_capabilities`
    /// does.
    fn check_under<F>(
        &self,
        condition: &E,
        builtin_needs: &[u32],
        class_needs: &[u32],
        declared: &F,
        span: Span,
        diagnostics: &mut Vec<Diagnostic>,
    ) -> (said: Ghost<(Seq<bool>, Seq<bool>)>) where F: Fn(&E, u32) -> bool
        requires
            forall|asked: &E, capability: u32| call_requires(*declared, (asked, capability)),
            self.capabilities matches Some(given) ==> *condition == given,
        ensures
            self.spec_checked(
                builtin_needs@,
                class_needs@,
                *declared,
                span,
                *condition,
                said@.0,
                said@.1,
                old(diagnostics)@,
                final(diagnostics)@,
            ),
    {
        let ghost mut builtin_said: Seq<bool> = Seq::empty();
        let ghost mut class_said: Seq<bool> = Seq::empty();
        assert(diagnostics@ =~= old(diagnostics)@ + Seq::<Diagnostic>::empty());
        if let Some(builtin) = self.spirv_builtin {
            let said = warn_undeclared(
                condition,
                builtin_needs,
                declared,
                span,
                Some(builtin),
                0,
                diagnostics,
            );
            proof {
                builtin_said = said@;
            }
        }
        let ghost after_builtin = diagnostics@;
        if let Some(class) = self.storage_class {
            let said = warn_undeclared(condition, class_needs, declared, span, None, class, diagnostics);
            proof {
                class_said = said@;
            }
        } else {
            assert(diagnostics@ =~= after_builtin + Seq::<Diagnostic>::empty());
        }
        Ghost((builtin_said, class_said))
    }

    /// Warns of each capability that the builtin or the storage class of
    /// the global needs and that is not declared. `builtin_needs` and
    /// `class_needs` are the capabilities that the two need; `declared`
    /// says, given the condition on the capabilities, whether a capability
    /// is declared under it. Where no condition was given, `declared` is
    /// asked under the default condition. The warnings are about `span`.
    pub fn check_capabilities<F>(
        &self,
        builtin_needs: &[u32],
        class_needs: &[u32],
        declared: F,
        span: Span,
        diagnostics: &mut Vec<Diagnostic>,
    ) where F: Fn(&E, u32) -> bool
        requires
            forall|asked: &E, capability: u32| call_requires(declared, (asked, capability)),
        ensures
            exists|condition: E, builtin_said: Seq<bool>, class_said: Seq<bool>| #[trigger]
                self.spec_checked(
                    builtin_needs@,
                    class_needs@,
                    declared,
                    span,
                    condition,
                    builtin_said,
                    class_said,
                    old(diagnostics)@,
                    final(diagnostics)@,
                ),
    {
        match &self.capabilities {
            Some(given) => {
                let said = self.check_under(
                    given,
                    builtin_needs,
                    class_needs,
                    &declared,
                    span,
                    diagnostics,
                );
                assert(self.spec_checked(
                    builtin_needs@,
                    class_needs@,
                    declared,
                    span,
                    *given,
                    said@.0,
                    said@.1,
                    old(diagnostics)@,
                    diagnostics@,
                ));
            },
            None => {
                let fallback: E = Default::default();
                let said = self.check_under(
                    &fallback,
                    builtin_needs,
                    class_needs,
                    &declared,
                    span,
                    diagnostics,
                );
                assert(self.spec_checked(
                    builtin_needs@,
                    class_needs@,
                    declared,
                    span,
                    fallback,
                    said@.0,
                    said@.1,
                    old(diagnostics)@,
                    diagnostics@,
                ));
            },
        }
    }


    /// The condition on the capabilities, and the default condition where
    /// none was given.
    pub fn capabilities(&self) -> (condition: Cow<'_, E>)
        ensures
            match self.capabilities {
                Some(given) => condition == Cow::<E>::Borrowed(&given),
                None => condition is Owned,
            },
    {
        if let Some(ref caps) = self.capabilities {
            Cow::Borrowed(caps)
        } else {
            Cow::Owned(Default::default())
        }
    }

    /// The condition on the execution model, and the default condition
    /// where none was given.
    pub fn exe_model(&self) -> (condition: Cow<'_, E>)
        ensures
            match self.exe_model {
                Some(given) => condition == Cow::<E>::Borrowed(&given),
                None => condition is Owned,
            },
    {
        if let Some(ref caps) = self.exe_model {
            Cow::Borrowed(caps)
        } else {
            Cow::Owned(Default::default())
        }
    }
}

impl<E> GlobalAttrs<E> {
    /// The attributes as a reading that has `diagnostics` to say.
    pub open spec fn spec_read(&self, diagnostics: Seq<Diagnostic>) -> GlobalRead<E> {
        GlobalRead {
            capabilities: self.capabilities,
            exe_model: self.exe_model,
            spirv_builtin: self.spirv_builtin,
            storage_class_if: self.storage_class_if@,
            storage_class: self.storage_class,
            descriptor_set_desc: self.descriptor_set_desc,
            diagnostics,
            fatal: None,
        }
    }

    /// The attributes of a global without attribute items.
    pub fn new() -> (out: Self)
        ensures
            out.capabilities is None,
            out.exe_model is None,
            out.spirv_builtin is None,
            out.storage_class_if@ == Seq::<(E, u32)>::empty(),
            out.storage_class is None,
            out.descriptor_set_desc is None,
    {
        GlobalAttrs {
            capabilities: None,
            exe_model: None,
            spirv_builtin: None,
            storage_class_if: Vec::new(),
            storage_class: None,
            descriptor_set_desc: None,
        }
    }

    /// Whether `class` is the storage class that is chosen where `holds`
    /// has said of the first `first` conditions of `storage_class_if` that
    /// they do not hold: the class of the next pair, whose condition it
    /// has said to hold, or, after the last pair, the storage class.
    pub open spec fn spec_chosen<F: Fn(&E) -> bool>(&self, holds: F, first: int, class: Option<u32>) -> bool {
        &&& 0 <= first <= self.storage_class_if@.len()
        &&& forall|j: int|
            0 <= j < first ==> call_ensures(
                holds,
                (&(#[trigger] self.storage_class_if@[j]).0,),
                false,
            )
        &&& first < self.storage_class_if@.len() ==> call_ensures(
            holds,
            (&self.storage_class_if@[first].0,),
            true,
        ) && class == Some(self.storage_class_if@[first].1)
        &&& first == self.storage_class_if@.len() ==> class == self.storage_class
    }

    /// The class of the first pair of `storage_class_if` whose condition
    /// holds, and the storage class where none does. `holds` says of a
    /// condition whether it holds.
    pub fn storage_class<F>(&self, holds: F) -> (class: Option<u32>) where F: Fn(&E) -> bool
        requires
            forall|condition: &E| call_requires(holds, (condition,)),
        ensures
            exists|first: int| self.spec_chosen(holds, first, class),
    {
        let mut i: usize = 0;
        while i < self.storage_class_if.len()
            invariant
                i <= self.storage_class_if@.len(),
                forall|condition: &E| call_requires(holds, (condition,)),
                forall|j: int|
                    0 <= j < i ==> call_ensures(
                        holds,
                        (&(#[trigger] self.storage_class_if@[j]).0,),
                        false,
                    ),
            decreases self.storage_class_if@.len() - i,
        {
            if holds(&self.storage_class_if[i].0) {
                assert(self.spec_chosen(holds, i as int, Some(self.storage_class_if@[i as int].1)));
                return Some(self.storage_class_if[i].1);
            }
            i = i + 1;
        }
        assert(self.spec_chosen(holds, i as int, self.storage_class));
        self.storage_class
    }

    /// The part of `item` that is to be parsed as a condition before the
    /// item is read, if it has one.
    pub fn condition_of<'a>(&self, item: &'a NestedMetaItem) -> (condition: Option<&'a MetaItem>)
        ensures
            match condition {
                Some(condition) => spec_condition_of(self.capabilities is Some, *item) == Some(
                    *condition,
                ),
                None => spec_condition_of(self.capabilities is Some, *item) is None,
            },
    {
        let named = match item {
            NestedMetaItem::MetaItem(named) => named,
            NestedMetaItem::Literal(_, _) => {
                return None;
            },
        };
        if named.has_name("capabilities") {
            if self.capabilities.is_some() {
                None
            } else {
                Some(named)
            }
        } else if named.has_name("storage_class_if") {
            match named.meta_item_list() {
                Some(list) => {
                    if list.len() != 2 {
                        return None;
                    }
                    match (&list[0], &list[1]) {
                        (NestedMetaItem::MetaItem(cond), NestedMetaItem::MetaItem(class)) => {
                            match class.ident() {
                                Some(_) => Some(cond),
                                None => None,
                            }
                        },
                        _ => None,
                    }
                },
                None => None,
            }
        } else if named.has_name("exe_model") {
            match named.meta_item_list() {
                Some(list) => {
                    if list.len() != 1 {
                        return None;
                    }
                    match &list[0] {
                        NestedMetaItem::MetaItem(cond) => Some(cond),
                        _ => None,
                    }
                },
                None => None,
            }
        } else {
            None
        }
    }

    /// Reads one attribute item of the global at `span`, whose attribute
    /// items are `items`. `parsed` is what the parsing of the item's
    /// condition gave. An error comes back where the global is of a storage
    /// class that is bound and lacks its set or binding number; it ends the
    /// reading.
    pub fn read_item(
        &mut self,
        item: &NestedMetaItem,
        parsed: Option<E>,
        builtins: &Names,
        storage_classes: &Names,
        items: &[NestedMetaItem],
        span: Span,
        diagnostics: &mut Vec<Diagnostic>,
    ) -> (ended: Result<(), Diagnostic>)
        ensures
            ({
                let read = spec_read_item(
                    old(self).spec_read(old(diagnostics)@),
                    *item,
                    parsed,
                    builtins,
                    storage_classes,
                    items@,
                    span,
                );
                &&& final(self).spec_read(final(diagnostics)@) == (GlobalRead { fatal: None, ..read })
                &&& ended == match read.fatal {
                    Some(fatal) => Err::<(), Diagnostic>(fatal),
                    None => Ok(()),
                }
            }),
    {
        let ghost start = self.spec_read(diagnostics@);
        let named = match item {
            NestedMetaItem::MetaItem(named) => named,
            NestedMetaItem::Literal(_, at) => {
                diagnostics.push(Diagnostic::error(*at, Message::UnknownAttribute));
                return Ok(());
            },
        };
        if named.has_name("capabilities") {
            if self.capabilities.is_some() {
                diagnostics.push(Diagnostic::error(named.span, Message::DuplicateCapabilities));
                return Ok(());
            }
            self.capabilities = parsed;
        } else if named.has_name("spirv_builtin") {
            let value = match named.value_str() {
                Some(value) => value,
                None => {
                    diagnostics.push(Diagnostic::error(named.span, Message::SpirvBuiltinNeedsValue));
                    return Ok(());
                },
            };
            let builtin: u32 = match builtins.number(value) {
                Some(builtin) => builtin,
                None => {
                    diagnostics.push(Diagnostic::error(named.span, Message::UnknownSpirvBuiltin));
                    return Ok(());
                },
            };
            if self.spirv_builtin.is_some() {
                diagnostics.push(Diagnostic::error(named.span, Message::SpirvBuiltinGivenTwice));
                return Ok(());
            }
            self.spirv_builtin = Some(builtin);
        } else if named.has_name("storage_class_if") {
            let list = match named.meta_item_list() {
                Some(list) => list,
                None => {
                    diagnostics.push(
                        Diagnostic::error(named.span, Message::StorageClassIfExpectsTwo),
                    );
                    return Ok(());
                },
            };
            if list.len() != 2 {
                diagnostics.push(Diagnostic::error(named.span, Message::StorageClassIfExpectsTwo));
                return Ok(());
            }
            match &list[0] {
                NestedMetaItem::MetaItem(_) => {},
                NestedMetaItem::Literal(_, at) => {
                    diagnostics.push(Diagnostic::error(*at, Message::UnsupportedLiteral));
                    return Ok(());
                },
            }
            let class = match &list[1] {
                NestedMetaItem::MetaItem(class) => class,
                NestedMetaItem::Literal(_, at) => {
                    diagnostics.push(Diagnostic::error(*at, Message::ExpectedWord));
                    return Ok(());
                },
            };
            let name = match class.ident() {
                Some(name) => name,
                None => {
                    diagnostics.push(Diagnostic::error(class.span, Message::ExpectedWord));
                    return Ok(());
                },
            };
            match parsed {
                Some(cond) => {
                    match storage_classes.number(name) {
                        Some(number) => {
                            self.storage_class_if.push((cond, number));
                        },
                        None => {
                            diagnostics.push(
                                Diagnostic::error(class.span, Message::UnexpectedStorageClass),
                            );
                        },
                    }
                },
                None => {},
            }
        } else if named.has_name("storage_class") {
            let value = match named.value_str() {
                Some(value) => value,
                None => {
                    diagnostics.push(Diagnostic::error(named.span, Message::StorageClassNeedsValue));
                    return Ok(());
                },
            };
            let class: u32 = match storage_classes.number(value) {
                Some(class) => class,
                None => {
                    diagnostics.push(Diagnostic::error(named.span, Message::UnknownStorageClass));
                    return Ok(());
                },
            };
            if self.storage_class.is_some() {
                diagnostics.push(Diagnostic::error(named.span, Message::StorageClassGivenTwice));
                return Ok(());
            }
            self.storage_class = Some(class);
            match DescriptorSetBinding::for_storage_class(class, items, span, diagnostics) {
                Ok(Some(binding)) => {
                    self.descriptor_set_desc = Some(binding);
                },
                Ok(None) => {},
                Err(missing) => {
                    return Err(missing);
                },
            }
        } else if named.has_name("exe_model") {
            let list = match named.meta_item_list() {
                Some(list) => list,
                None => {
                    diagnostics.push(Diagnostic::error(named.span, Message::ExeModelExpectsList));
                    return Ok(());
                },
            };
            if list.len() != 1 {
                diagnostics.push(Diagnostic::error(named.span, Message::ExeModelExpectsSingle));
                return Ok(());
            }
            match &list[0] {
                NestedMetaItem::MetaItem(_) => {},
                NestedMetaItem::Literal(_, at) => {
                    diagnostics.push(Diagnostic::error(*at, Message::UnsupportedLiteral));
                    return Ok(());
                },
            }
            if parsed.is_some() && self.exe_model.is_some() {
                diagnostics.push(Diagnostic::error(named.span, Message::DuplicateExeModel));
                return Ok(());
            }
            self.exe_model = parsed;
        } else if named.has_name("set") || named.has_name("binding") {
            // ignore these two, they are parsed contextually elsewhere.
        } else {
            diagnostics.push(Diagnostic::error(named.span, Message::UnknownAttribute));
        }
        Ok(())
    }
}

/// The reading of the first `count` attribute items of the global at
/// `span`, where the parsing of the condition of the `k`-th item gave
/// `parsed[k]` and `said` was said before. After an error that ends the
/// reading nothing more is read.
pub open spec fn spec_read_items<E>(
    items: Seq<NestedMetaItem>,
    parsed: Seq<Option<E>>,
    builtins: &Names,
    storage_classes: &Names,
    span: Span,
    said: Seq<Diagnostic>,
    count: int,
) -> GlobalRead<E>
    decreases count,
{
    if count <= 0 {
        GlobalRead {
            capabilities: None,
            exe_model: None,
            spirv_builtin: None,
            storage_class_if: Seq::empty(),
            storage_class: None,
            descriptor_set_desc: None,
            diagnostics: said,
            fatal: None,
        }
    } else {
        let before = spec_read_items(items, parsed, builtins, storage_classes, span, said, count - 1);
        if before.fatal is Some {
            before
        } else {
            spec_read_item(
                before,
                items[count - 1],
                parsed[count - 1],
                builtins,
                storage_classes,
                items,
                span,
            )
        }
    }
}

/// Whether `parsed` holds, for each of the first `count` attribute items
/// that is read, what `parse` gave for the item's condition, and nothing
/// for an item without one.
pub open spec fn spec_parsed_by<E, F: Fn(&MetaItem) -> Option<E>>(
    parse: F,
    items: Seq<NestedMetaItem>,
    parsed: Seq<Option<E>>,
    builtins: &Names,
    storage_classes: &Names,
    span: Span,
    said: Seq<Diagnostic>,
    count: int,
) -> bool {
    forall|k: int|
        0 <= k < count ==> {
            let before = #[trigger] spec_read_items(
                items,
                parsed,
                builtins,
                storage_classes,
                span,
                said,
                k,
            );
            before.fatal is None ==> match spec_condition_of(before.capabilities is Some, items[k]) {
                Some(condition) => call_ensures(parse, (&condition,), parsed[k]),
                None => parsed[k] is None,
            }
        }
}

/// What was read of the first items depends on what was parsed for them
/// alone.
pub proof fn lemma_read_items_agree<E>(
    items: Seq<NestedMetaItem>,
    parsed: Seq<Option<E>>,
    other: Seq<Option<E>>,
    builtins: &Names,
    storage_classes: &Names,
    span: Span,
    said: Seq<Diagnostic>,
    count: int,
)
    requires
        forall|k: int| 0 <= k < count ==> parsed[k] == other[k],
    ensures
        spec_read_items(items, parsed, builtins, storage_classes, span, said, count) == spec_read_items(
            items,
            other,
            builtins,
            storage_classes,
            span,
            said,
            count,
        ),
    decreases count,
{
    if count > 0 {
        lemma_read_items_agree(items, parsed, other, builtins, storage_classes, span, said, count - 1);
    }
}

/// Once an error has ended the reading, more items change nothing.
pub proof fn lemma_read_items_ended<E>(
    items: Seq<NestedMetaItem>,
    parsed: Seq<Option<E>>,
    builtins: &Names,
    storage_classes: &Names,
    span: Span,
    said: Seq<Diagnostic>,
    count: int,
    above: int,
)
    requires
        count <= above,
        spec_read_items(items, parsed, builtins, storage_classes, span, said, count).fatal is Some,
    ensures
        spec_read_items(items, parsed, builtins, storage_classes, span, said, above) == spec_read_items(
            items,
            parsed,
            builtins,
            storage_classes,
            span,
            said,
            count,
        ),
    decreases above - count,
{
    if count < above {
        lemma_read_items_ended(items, parsed, builtins, storage_classes, span, said, count, above - 1);
    }
}

/// What a reading of all attribute items comes to: the attributes, or the
/// error that ended the reading.
pub open spec fn spec_outcome<E>(
    read: GlobalRead<E>,
    out: Result<GlobalAttrs<E>, Diagnostic>,
    diagnostics: Seq<Diagnostic>,
) -> bool {
    &&& diagnostics == read.diagnostics
    &&& match out {
        Ok(attrs) => read.fatal is None && attrs.spec_read(diagnostics) == read,
        Err(fatal) => read.fatal == Some(fatal),
    }
}

/// Reads the attribute items of the global at `span`. `parse` is asked to
/// parse the condition of each item that has one, as the reading comes to
/// it. The reading ends early, with the error, where the global is of a
/// storage class that is bound and lacks its set or binding number.
pub fn geobacter_global_attrs<E, F>(
    items: &[NestedMetaItem],
    span: Span,
    builtins: &Names,
    storage_classes: &Names,
    parse: F,
    diagnostics: &mut Vec<Diagnostic>,
) -> (out: Result<GlobalAttrs<E>, Diagnostic>) where F: Fn(&MetaItem) -> Option<E>
    requires
        forall|condition: &MetaItem| call_requires(parse, (condition,)),
    ensures
        exists|parsed: Seq<Option<E>>|
            {
                &&& #[trigger] spec_parsed_by(
                    parse,
                    items@,
                    parsed,
                    builtins,
                    storage_classes,
                    span,
                    old(diagnostics)@,
                    items@.len() as int,
                )
                &&& spec_outcome(
                    spec_read_items(
                        items@,
                        parsed,
                        builtins,
                        storage_classes,
                        span,
                        old(diagnostics)@,
                        items@.len() as int,
                    ),
                    out,
                    final(diagnostics)@,
                )
            },
{
    let mut attrs: GlobalAttrs<E> = GlobalAttrs::new();
    let ghost mut parsed: Seq<Option<E>> = Seq::empty();
    let ghost said = diagnostics@;
    let mut i: usize = 0;
    assert(attrs.spec_read(diagnostics@).storage_class_if =~= Seq::<(E, u32)>::empty());
    while i < items.len()
        invariant
            said == old(diagnostics)@,
            i <= items@.len(),
            parsed.len() == i,
            forall|condition: &MetaItem| call_requires(parse, (condition,)),
            spec_parsed_by(parse, items@, parsed, builtins, storage_classes, span, said, i as int),
            attrs.spec_read(diagnostics@) == spec_read_items(
                items@,
                parsed,
                builtins,
                storage_classes,
                span,
                said,
                i as int,
            ),
        decreases items@.len() - i,
    {
        let ghost before = spec_read_items(items@, parsed, builtins, storage_classes, span, said, i as int);
        let ghost earlier = parsed;
        let given: Option<E> = match attrs.condition_of(&items[i]) {
            Some(condition) => parse(condition),
            None => None,
        };
        proof {
            parsed = earlier.push(given);
            assert forall|k: int| 0 <= k <= i implies #[trigger] spec_read_items(
                items@,
                parsed,
                builtins,
                storage_classes,
                span,
                said,
                k,
            ) == spec_read_items(items@, earlier, builtins, storage_classes, span, said, k) by {
                lemma_read_items_agree(items@, parsed, earlier, builtins, storage_classes, span, said, k);
            }
            assert(parsed[i as int] == given);
            assert(spec_parsed_by(parse, items@, parsed, builtins, storage_classes, span, said, i + 1));
        }
        let ended = attrs.read_item(
            &items[i],
            given,
            builtins,
            storage_classes,
            items,
            span,
            diagnostics,
        );
        let ghost now = spec_read_items(items@, parsed, builtins, storage_classes, span, said, i + 1);
        proof {
            assert(spec_read_items(items@, parsed, builtins, storage_classes, span, said, i as int)
                == before);
            assert(now == spec_read_item(
                before,
                items@[i as int],
                given,
                builtins,
                storage_classes,
                items@,
                span,
            ));
        }
        match ended {
            Err(fatal) => {
                proof {
                    assert(now.fatal == Some(fatal));
                    let rest = Seq::new((items@.len() - i - 1) as nat, |k: int| None::<E>);
                    let all = parsed + rest;
                    assert(all.len() == items@.len());
                    assert forall|k: int| 0 <= k <= i + 1 implies #[trigger] spec_read_items(
                        items@,
                        all,
                        builtins,
                        storage_classes,
                        span,
                        said,
                        k,
                    ) == spec_read_items(items@, parsed, builtins, storage_classes, span, said, k) by {
                        lemma_read_items_agree(
                            items@,
                            all,
                            parsed,
                            builtins,
                            storage_classes,
                            span,
                            said,
                            k,
                        );
                    }
                    assert forall|k: int| i + 1 <= k <= items@.len() implies #[trigger] spec_read_items(
                        items@,
                        all,
                        builtins,
                        storage_classes,
                        span,
                        said,
                        k,
                    ) == spec_read_items(items@, all, builtins, storage_classes, span, said, i + 1) by {
                        lemma_read_items_ended(
                            items@,
                            all,
                            builtins,
                            storage_classes,
                            span,
                            said,
                            i + 1,
                            k,
                        );
                    }
                    assert forall|k: int| 0 <= k <= i implies all[k] == parsed[k] by {}
                    assert(spec_parsed_by(
                        parse,
                        items@,
                        all,
                        builtins,
                        storage_classes,
                        span,
                        said,
                        items@.len() as int,
                    ));
                    assert(spec_outcome(
                        spec_read_items(
                            items@,
                            all,
                            builtins,
                            storage_classes,
                            span,
                            said,
                            items@.len() as int,
                        ),
                        Err::<GlobalAttrs<E>, Diagnostic>(fatal),
                        diagnostics@,
                    ));
                }
                return Err(fatal);
            },
            Ok(_) => {},
        }
        i = i + 1;
    }
    proof {
        assert(spec_outcome(
            spec_read_items(items@, parsed, builtins, storage_classes, span, said, items@.len() as int),
            Ok::<GlobalAttrs<E>, Diagnostic>(attrs),
            diagnostics@,
        ));
    }
    Ok(attrs)
}

/// What a condition on a storage class asks of the execution.
#[derive(Clone, Copy, Debug, Hash, Eq, PartialEq, Structural)]
pub enum Condition {
    /// That the execution model is the one with this number.
    ExeModel(u32),
}

impl Condition {
    /// The condition that `exe_model = "name"` stands for, and the error
    /// that there is to report of an item that stands for none.
    pub open spec fn spec_parse_name_value(item: MetaItem, exe_models: &Names) -> Result<
        Condition,
        Diagnostic,
    > {
        if item.name@ == "exe_model"@ {
            match item.spec_value_str() {
                Some(name) => match exe_models.spec_number(name) {
                    Some(model) => Ok(Condition::ExeModel(model)),
                    None => Err(Diagnostic::spec_error(item.span, Message::UnexpectedExeModel)),
                },
                None => Err(Diagnostic::spec_error(item.span, Message::UnexpectedExeModel)),
            }
        } else {
            Err(Diagnostic::spec_error(item.span, Message::UnknownConditionKey))
        }
    }

    /// Reads the condition `exe_model = "name"`.
    pub fn parse_name_value(item: &MetaItem, exe_models: &Names, diagnostics: &mut Vec<Diagnostic>) -> (condition:
        Option<Condition>)
        ensures
            match Self::spec_parse_name_value(*item, exe_models) {
                Ok(read) => condition == Some(read) && final(diagnostics)@ == old(diagnostics)@,
                Err(error) => condition is None && final(diagnostics)@ == old(diagnostics)@.push(
                    error,
                ),
            },
    {
        if item.has_name("exe_model") {
            let model = match item.value_str() {
                Some(name) => exe_models.number(name),
                None => None,
            };
            return match model {
                Some(model) => Some(Condition::ExeModel(model)),
                None => {
                    diagnostics.push(Diagnostic::error(item.span, Message::UnexpectedExeModel));
                    None
                },
            };
        }
        diagnostics.push(Diagnostic::error(item.span, Message::UnknownConditionKey));
        None
    }
}

} // verus!
