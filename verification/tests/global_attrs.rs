use hsa_rt::attrs::{DescriptorBufferDesc, DescriptorDescTy, DescriptorSetBinding};
use hsa_rt::global_attrs::{geobacter_global_attrs, Condition, GlobalAttrs};
use hsa_rt::meta::{
    Diagnostic, Level, Lit, Message, MetaItem, MetaItemKind, NestedMetaItem, Span,
};
use hsa_rt::spirv::Names;

fn span(lo: u32) -> Span {
    Span { lo, hi: lo + 1 }
}

fn item(name: &str, kind: MetaItemKind, at: u32) -> NestedMetaItem {
    NestedMetaItem::MetaItem(MetaItem { name: name.to_string(), kind, span: span(at) })
}

fn word(name: &str, at: u32) -> NestedMetaItem {
    item(name, MetaItemKind::Word, at)
}

fn value(name: &str, text: &str, at: u32) -> NestedMetaItem {
    item(name, MetaItemKind::NameValue(Lit::Str(text.to_string())), at)
}

fn list(name: &str, elements: Vec<NestedMetaItem>, at: u32) -> NestedMetaItem {
    item(name, MetaItemKind::List(elements), at)
}

fn literal(at: u32) -> NestedMetaItem {
    NestedMetaItem::Literal(Lit::Int(1), span(at))
}

fn error(at: u32, message: Message) -> Diagnostic {
    Diagnostic { level: Level::Error, span: span(at), message }
}

fn names(list: &[Option<&str>]) -> Names {
    Names { names: list.iter().map(|name| name.map(|name| name.to_string())).collect() }
}

fn builtins() -> Names {
    names(&[Some("Position"), Some("PointSize"), None, Some("ClipDistance"), Some("Position")])
}

fn storage_classes() -> Names {
    let mut list = vec![Some("UniformConstant"), Some("Input"), Some("Uniform"), Some("Output")];
    list.resize(12, None);
    list.push(Some("StorageBuffer"));
    names(&list)
}

/// Reads the items as the embedding does: asks for the condition of each
/// item, "parses" it to the place of the condition, and hands both over.
fn read(items: &[NestedMetaItem]) -> (GlobalAttrs<u32>, Vec<Diagnostic>, Result<(), Diagnostic>) {
    let mut out = GlobalAttrs::new();
    let mut diagnostics = Vec::new();
    let builtins = builtins();
    let classes = storage_classes();
    for item in items {
        let parsed = out.condition_of(item).and_then(|condition| {
            if condition.name == "bad" {
                None
            } else {
                Some(condition.span.lo)
            }
        });
        let ended =
            out.read_item(item, parsed, &builtins, &classes, items, span(100), &mut diagnostics);
        if ended.is_err() {
            return (out, diagnostics, ended);
        }
    }
    (out, diagnostics, Ok(()))
}

#[test]
fn names_are_looked_up_by_their_least_number() {
    let builtins = builtins();
    assert_eq!(builtins.number("Position"), Some(0));
    assert_eq!(builtins.number("ClipDistance"), Some(3));
    assert_eq!(builtins.number("position"), None);
    assert_eq!(builtins.number(""), None);
    assert_eq!(storage_classes().number("StorageBuffer"), Some(12));
    assert_eq!(names(&[]).number("x"), None);
}

#[test]
fn global_without_attributes() {
    let (out, diagnostics, ended) = read(&[]);
    assert!(out.capabilities.is_none() && out.exe_model.is_none());
    assert!(out.spirv_builtin.is_none() && out.storage_class.is_none());
    assert!(out.storage_class_if.is_empty() && out.descriptor_set_desc.is_none());
    assert!(diagnostics.is_empty());
    assert_eq!(ended, Ok(()));
}

#[test]
fn conditions_that_are_to_be_parsed() {
    let mut out: GlobalAttrs<u32> = GlobalAttrs::new();
    let caps = list("capabilities", vec![word("Shader", 1)], 0);
    assert_eq!(out.condition_of(&caps).map(|c| c.span), Some(span(0)));
    out.capabilities = Some(5);
    assert!(out.condition_of(&caps).is_none());
    let class_if = list("storage_class_if", vec![word("cond", 3), word("Uniform", 4)], 2);
    assert_eq!(out.condition_of(&class_if).map(|c| c.span), Some(span(3)));
    for malformed in [
        list("storage_class_if", vec![word("cond", 3)], 2),
        list("storage_class_if", vec![literal(3), word("Uniform", 4)], 2),
        list("storage_class_if", vec![word("cond", 3), literal(4)], 2),
        list("storage_class_if", vec![word("cond", 3), word("", 4)], 2),
        word("storage_class_if", 2),
        list("exe_model", vec![], 2),
        list("exe_model", vec![literal(3)], 2),
        list("exe_model", vec![word("a", 3), word("b", 4)], 2),
        value("exe_model", "Vertex", 2),
        value("spirv_builtin", "Position", 2),
        value("storage_class", "Uniform", 2),
        word("set", 2),
        literal(2),
    ] {
        assert!(out.condition_of(&malformed).is_none());
    }
    let exe_model = list("exe_model", vec![list("any", vec![], 6)], 5);
    assert_eq!(out.condition_of(&exe_model).map(|c| c.span), Some(span(6)));
}

#[test]
fn attributes_of_a_uniform_global() {
    let (out, diagnostics, ended) = read(&[
        list("capabilities", vec![word("Shader", 1)], 0),
        value("spirv_builtin", "PointSize", 2),
        value("set", "1", 3),
        value("binding", "4", 4),
        value("storage_class", "Uniform", 5),
        list("storage_class_if", vec![word("cond", 7), word("Input", 8)], 6),
        list("storage_class_if", vec![word("other", 10), list("Output", vec![], 11)], 9),
        list("exe_model", vec![word("Fragment", 13)], 12),
    ]);
    assert_eq!(ended, Ok(()));
    assert!(diagnostics.is_empty());
    assert_eq!(out.capabilities, Some(0));
    assert_eq!(out.spirv_builtin, Some(1));
    assert_eq!(out.storage_class, Some(2));
    assert_eq!(out.storage_class_if, vec![(7, 1), (10, 3)]);
    assert_eq!(out.exe_model, Some(13));
    assert_eq!(
        out.descriptor_set_desc,
        Some(DescriptorSetBinding {
            set: 1,
            binding: 4,
            desc_ty: DescriptorDescTy::Buffer(DescriptorBufferDesc {
                dynamic: Some(false),
                storage: false
            }),
            array_count: 1,
            read_only: true,
        })
    );
}

#[test]
fn bound_global_without_its_numbers_ends_the_reading() {
    let (out, diagnostics, ended) = read(&[
        value("binding", "x", 0),
        value("storage_class", "StorageBuffer", 1),
        value("spirv_builtin", "Position", 2),
    ]);
    assert_eq!(
        ended,
        Err(Diagnostic { level: Level::Fatal, span: span(100), message: Message::MissingSet })
    );
    assert_eq!(out.storage_class, Some(12));
    assert!(out.descriptor_set_desc.is_none());
    assert!(out.spirv_builtin.is_none());
    assert_eq!(diagnostics, vec![error(0, Message::CantParseU32)]);
}

#[test]
fn unbound_storage_class_needs_no_numbers() {
    let (out, diagnostics, ended) = read(&[value("storage_class", "Input", 0)]);
    assert_eq!(ended, Ok(()));
    assert_eq!(out.storage_class, Some(1));
    assert!(out.descriptor_set_desc.is_none());
    assert!(diagnostics.is_empty());
}

#[test]
fn malformed_attributes_are_reported() {
    let (out, diagnostics, ended) = read(&[
        list("capabilities", vec![], 0),
        list("capabilities", vec![], 1),
        word("spirv_builtin", 2),
        value("spirv_builtin", "Nonsense", 3),
        value("spirv_builtin", "ClipDistance", 4),
        value("spirv_builtin", "Position", 5),
        word("storage_class_if", 6),
        list("storage_class_if", vec![word("cond", 8)], 7),
        list("storage_class_if", vec![literal(10), word("Input", 11)], 9),
        list("storage_class_if", vec![word("cond", 13), literal(14)], 12),
        list("storage_class_if", vec![word("cond", 16), word("", 17)], 15),
        list("storage_class_if", vec![word("cond", 19), word("Nonsense", 20)], 18),
        list("storage_class_if", vec![word("bad", 22), word("Nonsense", 23)], 21),
        word("storage_class", 24),
        value("storage_class", "Nonsense", 25),
        value("storage_class", "Output", 26),
        value("storage_class", "Input", 27),
        word("exe_model", 28),
        list("exe_model", vec![], 29),
        list("exe_model", vec![literal(31)], 30),
        list("exe_model", vec![word("Vertex", 33)], 32),
        list("exe_model", vec![word("Fragment", 35)], 34),
        list("exe_model", vec![word("bad", 37)], 36),
        word("binding", 38),
        word("other", 39),
        literal(40),
    ]);
    assert_eq!(ended, Ok(()));
    assert_eq!(out.capabilities, Some(0));
    assert_eq!(out.spirv_builtin, Some(3));
    assert!(out.storage_class_if.is_empty());
    assert_eq!(out.storage_class, Some(3));
    // A condition that was not parsed takes the place of the first.
    assert_eq!(out.exe_model, None);
    assert_eq!(
        diagnostics,
        vec![
            error(1, Message::DuplicateCapabilities),
            error(2, Message::SpirvBuiltinNeedsValue),
            error(3, Message::UnknownSpirvBuiltin),
            error(5, Message::SpirvBuiltinGivenTwice),
            error(6, Message::StorageClassIfExpectsTwo),
            error(7, Message::StorageClassIfExpectsTwo),
            error(10, Message::UnsupportedLiteral),
            error(14, Message::ExpectedWord),
            error(17, Message::ExpectedWord),
            error(20, Message::UnexpectedStorageClass),
            error(24, Message::StorageClassNeedsValue),
            error(25, Message::UnknownStorageClass),
            error(27, Message::StorageClassGivenTwice),
            error(28, Message::ExeModelExpectsList),
            error(29, Message::ExeModelExpectsSingle),
            error(31, Message::UnsupportedLiteral),
            error(34, Message::DuplicateExeModel),
            error(39, Message::UnknownAttribute),
            error(40, Message::UnknownAttribute),
        ]
    );
}

#[test]
fn capabilities_that_were_not_parsed_can_be_given_again() {
    let (out, diagnostics, _) = read(&[
        item("capabilities", MetaItemKind::Word, 0),
        list("capabilities", vec![], 1),
    ]);
    // The first was "parsed" to its place, so the second is a duplicate.
    assert_eq!(out.capabilities, Some(0));
    assert_eq!(diagnostics, vec![error(1, Message::DuplicateCapabilities)]);
    let mut out: GlobalAttrs<u32> = GlobalAttrs::new();
    let mut diagnostics = Vec::new();
    let caps = list("capabilities", vec![], 1);
    let again = [caps];
    assert!(out
        .read_item(&again[0], None, &builtins(), &storage_classes(), &again, span(9), &mut diagnostics)
        .is_ok());
    assert_eq!(out.capabilities, None);
    assert!(out.condition_of(&again[0]).is_some());
    assert!(out
        .read_item(&again[0], Some(7), &builtins(), &storage_classes(), &again, span(9), &mut diagnostics)
        .is_ok());
    assert_eq!(out.capabilities, Some(7));
    assert!(diagnostics.is_empty());
}

#[test]
fn conditions_default_where_none_was_given() {
    let mut out: GlobalAttrs<u32> = GlobalAttrs::new();
    assert!(matches!(out.capabilities(), std::borrow::Cow::Owned(0)));
    assert!(matches!(out.exe_model(), std::borrow::Cow::Owned(0)));
    out.capabilities = Some(4);
    out.exe_model = Some(9);
    assert!(matches!(out.capabilities(), std::borrow::Cow::Borrowed(&4)));
    assert!(matches!(out.exe_model(), std::borrow::Cow::Borrowed(&9)));
}

#[test]
fn first_condition_that_holds_chooses_the_storage_class() {
    let mut out: GlobalAttrs<u32> = GlobalAttrs::new();
    assert_eq!(out.storage_class(|_| true), None);
    out.storage_class = Some(7);
    assert_eq!(out.storage_class(|_| true), Some(7));
    out.storage_class_if = vec![(1, 10), (2, 20), (3, 30)];
    assert_eq!(out.storage_class(|_| true), Some(10));
    assert_eq!(out.storage_class(|condition| *condition >= 2), Some(20));
    assert_eq!(out.storage_class(|condition| *condition == 3), Some(30));
    assert_eq!(out.storage_class(|_| false), Some(7));
    let asked = std::cell::RefCell::new(Vec::new());
    assert_eq!(
        out.storage_class(|condition| {
            asked.borrow_mut().push(*condition);
            *condition == 2
        }),
        Some(20)
    );
    assert_eq!(asked.into_inner(), vec![1, 2]);
}

fn read_all(
    items: &[NestedMetaItem],
) -> (Result<GlobalAttrs<u32>, Diagnostic>, Vec<Diagnostic>, Vec<u32>) {
    let asked = std::cell::RefCell::new(Vec::new());
    let mut diagnostics = vec![error(99, Message::UnknownAttribute)];
    let out = geobacter_global_attrs(
        items,
        span(100),
        &builtins(),
        &storage_classes(),
        |condition: &MetaItem| {
            asked.borrow_mut().push(condition.span.lo);
            if condition.name == "bad" {
                None
            } else {
                Some(condition.span.lo)
            }
        },
        &mut diagnostics,
    );
    (out, diagnostics, asked.into_inner())
}

#[test]
fn all_items_of_a_global_are_read_in_turn() {
    let (out, diagnostics, asked) = read_all(&[
        list("capabilities", vec![word("Shader", 1)], 0),
        list("capabilities", vec![word("Shader", 3)], 2),
        value("storage_class", "Input", 4),
        list("storage_class_if", vec![word("bad", 6), word("Input", 7)], 5),
        list("storage_class_if", vec![word("cond", 9), word("Output", 10)], 8),
        list("exe_model", vec![word("Vertex", 12)], 11),
        word("nonsense", 13),
    ]);
    let out = out.expect("nothing ends the reading");
    assert_eq!(out.capabilities, Some(0));
    assert_eq!(out.storage_class, Some(1));
    assert_eq!(out.storage_class_if, vec![(9, 3)]);
    assert_eq!(out.exe_model, Some(12));
    // The condition of the second `capabilities` is not parsed.
    assert_eq!(asked, vec![0, 6, 9, 12]);
    assert_eq!(
        diagnostics,
        vec![
            error(99, Message::UnknownAttribute),
            error(2, Message::DuplicateCapabilities),
            error(13, Message::UnknownAttribute),
        ]
    );
}

#[test]
fn reading_ends_at_a_bound_global_without_numbers() {
    let (out, diagnostics, asked) = read_all(&[
        value("set", "3", 0),
        value("storage_class", "Uniform", 1),
        list("capabilities", vec![], 2),
        word("nonsense", 3),
    ]);
    assert_eq!(
        out.err(),
        Some(Diagnostic { level: Level::Fatal, span: span(100), message: Message::MissingBinding })
    );
    assert!(asked.is_empty());
    assert_eq!(diagnostics, vec![error(99, Message::UnknownAttribute)]);
    let (out, diagnostics, _) = read_all(&[]);
    assert!(out.is_ok());
    assert_eq!(diagnostics, vec![error(99, Message::UnknownAttribute)]);
}

#[test]
fn condition_on_the_execution_model() {
    let exe_models = names(&[Some("Vertex"), None, None, Some("Geometry"), Some("Fragment")]);
    let of = |name: &str, kind| MetaItem { name: name.to_string(), kind, span: span(5) };
    let mut diagnostics = Vec::new();
    assert_eq!(
        Condition::parse_name_value(
            &of("exe_model", MetaItemKind::NameValue(Lit::Str("Fragment".to_string()))),
            &exe_models,
            &mut diagnostics
        ),
        Some(Condition::ExeModel(4))
    );
    assert!(diagnostics.is_empty());
    assert_eq!(
        Condition::parse_name_value(
            &of("exe_model", MetaItemKind::NameValue(Lit::Str("Kernel".to_string()))),
            &exe_models,
            &mut diagnostics
        ),
        None
    );
    assert_eq!(
        Condition::parse_name_value(&of("exe_model", MetaItemKind::Word), &exe_models, &mut diagnostics),
        None
    );
    assert_eq!(
        Condition::parse_name_value(
            &of("model", MetaItemKind::NameValue(Lit::Str("Vertex".to_string()))),
            &exe_models,
            &mut diagnostics
        ),
        None
    );
    assert_eq!(
        diagnostics,
        vec![
            error(5, Message::UnexpectedExeModel),
            error(5, Message::UnexpectedExeModel),
            error(5, Message::UnknownConditionKey),
        ]
    );
}

fn warning(at: u32, message: Message) -> Diagnostic {
    Diagnostic { level: Level::Warning, span: span(at), message }
}

#[test]
fn undeclared_capabilities_of_a_global_are_warned_of() {
    let declared = |condition: &u32, capability: u32| capability < *condition;
    let mut out: GlobalAttrs<u32> = GlobalAttrs::new();
    out.capabilities = Some(6);

    // Without a builtin and a storage class nothing is needed.
    let mut diagnostics = Vec::new();
    out.check_capabilities(&[1, 9], &[8], declared, span(5), &mut diagnostics);
    assert!(diagnostics.is_empty());

    out.spirv_builtin = Some(4);
    out.storage_class = Some(12);
    let mut diagnostics = vec![error(1, Message::UnknownAttribute)];
    out.check_capabilities(&[1, 7, 2, 6], &[9, 0, 8], declared, span(5), &mut diagnostics);
    assert_eq!(
        diagnostics,
        vec![
            error(1, Message::UnknownAttribute),
            warning(5, Message::BuiltinRequiresCapability { capability: 7, builtin: 4 }),
            warning(5, Message::BuiltinRequiresCapability { capability: 6, builtin: 4 }),
            warning(5, Message::StorageClassRequiresCapability { capability: 9, class: 12 }),
            warning(5, Message::StorageClassRequiresCapability { capability: 8, class: 12 }),
        ]
    );

    // Only the storage class has needs.
    out.spirv_builtin = None;
    let mut diagnostics = Vec::new();
    out.check_capabilities(&[7], &[7, 7], declared, span(3), &mut diagnostics);
    assert_eq!(
        diagnostics,
        vec![
            warning(3, Message::StorageClassRequiresCapability { capability: 7, class: 12 }),
            warning(3, Message::StorageClassRequiresCapability { capability: 7, class: 12 }),
        ]
    );
}

#[test]
fn capabilities_are_asked_under_the_default_condition_where_none_was_given() {
    let mut out: GlobalAttrs<u32> = GlobalAttrs::new();
    out.spirv_builtin = Some(1);
    let asked = std::cell::RefCell::new(Vec::new());
    let mut diagnostics = Vec::new();
    out.check_capabilities(
        &[3, 4],
        &[5],
        |condition: &u32, capability: u32| {
            asked.borrow_mut().push((*condition, capability));
            capability == 4
        },
        span(2),
        &mut diagnostics,
    );
    assert_eq!(asked.into_inner(), vec![(0, 3), (0, 4)]);
    assert_eq!(
        diagnostics,
        vec![warning(2, Message::BuiltinRequiresCapability { capability: 3, builtin: 1 })]
    );
}
