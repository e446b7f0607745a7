//! Attribute items as plain values, and the diagnostics that reading them
//! gives rise to.

use vstd::prelude::*;

verus! {

/// A place in the source text.
#[derive(Clone, Copy, Debug, PartialEq, Eq, Structural, Hash)]
pub struct Span {
    pub lo: u32,
    pub hi: u32,
}

/// A definition: the crate it is in and its number there.
#[derive(Clone, Copy, Debug, PartialEq, Eq, Structural, Hash)]
pub struct DefId {
    pub krate: u32,
    pub index: u32,
}

/// A literal in an attribute.
#[derive(Debug)]
pub enum Lit {
    Str(String),
    Int(u128),
    Other,
}

/// What follows the name of an attribute item.
#[derive(Debug)]
pub enum MetaItemKind {
    /// Nothing: `name`.
    Word,
    /// A list: `name(..)`.
    List(Vec<NestedMetaItem>),
    /// A value: `name = lit`.
    NameValue(Lit),
}

/// An attribute item. The name is empty where the item's path has more
/// than one segment.
#[derive(Debug)]
pub struct MetaItem {
    pub name: String,
    pub kind: MetaItemKind,
    pub span: Span,
}

/// An element of a list in an attribute.
#[derive(Debug)]
pub enum NestedMetaItem {
    MetaItem(MetaItem),
    Literal(Lit, Span),
}

/// How grave a diagnostic is. A fatal one ends the compilation.
#[derive(Clone, Copy, Debug, PartialEq, Eq, Structural, Hash)]
pub enum Level {
    Fatal,
    Error,
    Warning,
}

/// What a diagnostic says.
#[derive(Clone, Copy, Debug, PartialEq, Eq, Structural, Hash)]
pub enum Message {
    /// `set` is to be given as `set = "<integer>"`.
    SetNeedsValue,
    /// `binding` is to be given as `binding = "<integer>"`.
    BindingNeedsValue,
    /// The text is no `u32`.
    CantParseU32,
    /// `set = "<integer>"` is missing.
    MissingSet,
    /// `binding = "<integer>"` is missing.
    MissingBinding,
    /// The capability was given before.
    DuplicateCapability { capability: u32 },
    /// The name is no capability.
    UnknownCapability,
    /// `capabilities(..)` is to hold a list of words.
    CapabilitiesExpectsWords,
    /// The execution model needs a capability that is not declared.
    ModelRequiresCapability { capability: u32, model: u32 },
    /// The execution mode with this position among the root's modes needs
    /// a capability that is not declared.
    ModeRequiresCapability { capability: u32, mode: usize },
    /// `local_size(..)` is to hold name and value pairs `x`, `y` and `z`.
    LocalSizeExpectsList,
    /// `local_size(..)` lacks the dimension with this number (x is 0).
    LocalSizeMissingDim { dim: u8 },
    /// A literal where an item was expected.
    UnsupportedLiteral,
    /// Not one of the dimensions `x`, `y` and `z`.
    UnknownLocalSizeDim,
    /// The value is no integer literal.
    ExpectedIntegerLiteral,
    /// The integer does not fit in 32 bits.
    IntegerOutOfRange,
    /// `local_size(..)` was given before.
    LocalSizeGivenTwice,
    /// The attribute is not known.
    UnknownAttribute,
    /// `capabilities(..)` was given before.
    DuplicateCapabilities,
    /// `spirv_builtin` is to be given as `spirv_builtin = ".."`.
    SpirvBuiltinNeedsValue,
    /// The name is no builtin.
    UnknownSpirvBuiltin,
    /// `spirv_builtin` was given before.
    SpirvBuiltinGivenTwice,
    /// `storage_class_if(..)` is to hold a condition and a storage class.
    StorageClassIfExpectsTwo,
    /// A word was expected.
    ExpectedWord,
    /// The name in `storage_class_if(..)` is no storage class.
    UnexpectedStorageClass,
    /// `storage_class` is to be given as `storage_class = ".."`.
    StorageClassNeedsValue,
    /// The name is no storage class.
    UnknownStorageClass,
    /// `storage_class` was given before.
    StorageClassGivenTwice,
    /// `exe_model(..)` was given before.
    DuplicateExeModel,
    /// `exe_model(..)` is to hold a single condition.
    ExeModelExpectsSingle,
    /// `exe_model(..)` is to be a list with one condition.
    ExeModelExpectsList,
    /// The builtin needs a capability that is not declared.
    BuiltinRequiresCapability { capability: u32, builtin: u32 },
    /// The storage class needs a capability that is not declared.
    StorageClassRequiresCapability { capability: u32, class: u32 },
    /// The name is no execution model.
    UnexpectedExeModel,
    /// The key of a condition is not `exe_model`.
    UnknownConditionKey,
}

/// A message about a place in the source text.
#[derive(Clone, Copy, Debug, PartialEq, Eq, Structural, Hash)]
pub struct Diagnostic {
    pub level: Level,
    pub span: Span,
    pub message: Message,
}

impl Diagnostic {
    pub open spec fn spec_error(span: Span, message: Message) -> Diagnostic {
        Diagnostic { level: Level::Error, span, message }
    }

    pub open spec fn spec_warning(span: Span, message: Message) -> Diagnostic {
        Diagnostic { level: Level::Warning, span, message }
    }

    pub open spec fn spec_fatal(span: Span, message: Message) -> Diagnostic {
        Diagnostic { level: Level::Fatal, span, message }
    }

    /// An error about `span`.
    #[verifier::when_used_as_spec(spec_error)]
    pub fn error(span: Span, message: Message) -> (diagnostic: Diagnostic)
        ensures
            diagnostic == Self::spec_error(span, message),
    {
        Diagnostic { level: Level::Error, span, message }
    }

    /// A warning about `span`.
    #[verifier::when_used_as_spec(spec_warning)]
    pub fn warning(span: Span, message: Message) -> (diagnostic: Diagnostic)
        ensures
            diagnostic == Self::spec_warning(span, message),
    {
        Diagnostic { level: Level::Warning, span, message }
    }

    /// A fatal error about `span`.
    #[verifier::when_used_as_spec(spec_fatal)]
    pub fn fatal(span: Span, message: Message) -> (diagnostic: Diagnostic)
        ensures
            diagnostic == Self::spec_fatal(span, message),
    {
        Diagnostic { level: Level::Fatal, span, message }
    }
}

/// Whether two texts are the same.
pub fn same_text(a: &str, b: &str) -> (same: bool)
    ensures
        same == (a@ == b@),
{
    a.to_owned() == b.to_owned()
}

impl Lit {
    /// The text of a string literal.
    pub open spec fn spec_str(&self) -> Option<Seq<char>> {
        match self {
            Lit::Str(text) => Some(text@),
            _ => None,
        }
    }

    /// The text of a string literal; `None` for a literal of another kind.
    pub fn as_str(&self) -> (text: Option<&str>)
        ensures
            match text {
                Some(text) => self.spec_str() == Some(text@),
                None => self.spec_str() is None,
            },
    {
        match self {
            Lit::Str(text) => Some(text.as_str()),
            _ => None,
        }
    }
}

impl MetaItem {
    /// Whether the item is called `name`.
    pub open spec fn spec_has_name(&self, name: Seq<char>) -> bool {
        self.name@ == name
    }

    /// The text of the item's value, where the item is `name = "text"`.
    pub open spec fn spec_value_str(&self) -> Option<Seq<char>> {
        match self.kind {
            MetaItemKind::NameValue(lit) => lit.spec_str(),
            _ => None,
        }
    }

    /// The elements of the item's list, where the item is `name(..)`.
    pub open spec fn spec_list(&self) -> Option<Seq<NestedMetaItem>> {
        match self.kind {
            MetaItemKind::List(list) => Some(list@),
            _ => None,
        }
    }

    pub open spec fn spec_is_word(&self) -> bool {
        self.kind is Word
    }

    /// Whether the item is called `name`.
    pub fn has_name(&self, name: &str) -> (named: bool)
        ensures
            named == self.spec_has_name(name@),
    {
        same_text(self.name.as_str(), name)
    }

    /// The item's name.
    pub fn name_or_empty(&self) -> (name: &str)
        ensures
            name@ == self.name@,
    {
        self.name.as_str()
    }

    /// The text of the item's value, where the item is `name = "text"`.
    pub fn value_str(&self) -> (text: Option<&str>)
        ensures
            match text {
                Some(text) => self.spec_value_str() == Some(text@),
                None => self.spec_value_str() is None,
            },
    {
        match &self.kind {
            MetaItemKind::NameValue(lit) => lit.as_str(),
            _ => None,
        }
    }

    /// The item's value, where the item is `name = lit`.
    pub fn name_value_literal(&self) -> (lit: Option<&Lit>)
        ensures
            lit == match self.kind {
                MetaItemKind::NameValue(lit) => Some(&lit),
                _ => None,
            },
    {
        match &self.kind {
            MetaItemKind::NameValue(lit) => Some(lit),
            _ => None,
        }
    }

    /// The elements of the item's list, where the item is `name(..)`.
    pub fn meta_item_list(&self) -> (list: Option<&Vec<NestedMetaItem>>)
        ensures
            match list {
                Some(list) => self.spec_list() == Some(list@),
                None => self.spec_list() is None,
            },
    {
        match &self.kind {
            MetaItemKind::List(list) => Some(list),
            _ => None,
        }
    }

    /// Whether the item is a name alone.
    #[verifier::when_used_as_spec(spec_is_word)]
    pub fn is_word(&self) -> (word: bool)
        ensures
            word == self.spec_is_word(),
    {
        match &self.kind {
            MetaItemKind::Word => true,
            _ => false,
        }
    }

    /// The item's name, where its path is a single name.
    pub open spec fn spec_ident(&self) -> Option<Seq<char>> {
        if self.name@.len() > 0 {
            Some(self.name@)
        } else {
            None
        }
    }

    /// The item's name, where its path is a single name.
    pub fn ident(&self) -> (name: Option<&str>)
        ensures
            match name {
                Some(name) => self.spec_ident() == Some(name@),
                None => self.spec_ident() is None,
            },
    {
        if self.name.as_str().is_empty() {
            None
        } else {
            Some(self.name.as_str())
        }
    }
}

impl NestedMetaItem {
    /// The place of the element.
    pub open spec fn spec_span(&self) -> Span {
        match self {
            NestedMetaItem::MetaItem(item) => item.span,
            NestedMetaItem::Literal(_, span) => *span,
        }
    }

    /// Whether the element is an item called `name`.
    pub open spec fn spec_has_name(&self, name: Seq<char>) -> bool {
        match self {
            NestedMetaItem::MetaItem(item) => item.spec_has_name(name),
            NestedMetaItem::Literal(_, _) => false,
        }
    }

    /// The text of the element's value, where it is an item `name =
    /// "text"`.
    pub open spec fn spec_value_str(&self) -> Option<Seq<char>> {
        match self {
            NestedMetaItem::MetaItem(item) => item.spec_value_str(),
            NestedMetaItem::Literal(_, _) => None,
        }
    }

    /// Whether the element is an item that is a name alone.
    pub open spec fn spec_is_word(&self) -> bool {
        match self {
            NestedMetaItem::MetaItem(item) => item.spec_is_word(),
            NestedMetaItem::Literal(_, _) => false,
        }
    }

    /// The place of the element.
    #[verifier::when_used_as_spec(spec_span)]
    pub fn span(&self) -> (span: Span)
        ensures
            span == self.spec_span(),
    {
        match self {
            NestedMetaItem::MetaItem(item) => item.span,
            NestedMetaItem::Literal(_, span) => *span,
        }
    }

    /// The element as an item; `None` for a literal.
    pub fn meta_item(&self) -> (item: Option<&MetaItem>)
        ensures
            item == match self {
                NestedMetaItem::MetaItem(item) => Some(item),
                NestedMetaItem::Literal(_, _) => None,
            },
    {
        match self {
            NestedMetaItem::MetaItem(item) => Some(item),
            NestedMetaItem::Literal(_, _) => None,
        }
    }

    /// Whether the element is an item called `name`.
    pub fn has_name(&self, name: &str) -> (named: bool)
        ensures
            named == self.spec_has_name(name@),
    {
        match self {
            NestedMetaItem::MetaItem(item) => item.has_name(name),
            NestedMetaItem::Literal(_, _) => false,
        }
    }

    /// The text of the element's value, where it is an item `name =
    /// "text"`.
    pub fn value_str(&self) -> (text: Option<&str>)
        ensures
            match text {
                Some(text) => self.spec_value_str() == Some(text@),
                None => self.spec_value_str() is None,
            },
    {
        match self {
            NestedMetaItem::MetaItem(item) => item.value_str(),
            NestedMetaItem::Literal(_, _) => None,
        }
    }

    /// Whether the element is an item that is a name alone.
    #[verifier::when_used_as_spec(spec_is_word)]
    pub fn is_word(&self) -> (word: bool)
        ensures
            word == self.spec_is_word(),
    {
        match self {
            NestedMetaItem::MetaItem(item) => item.is_word(),
            NestedMetaItem::Literal(_, _) => false,
        }
    }
}

/// Whether the text `a` comes before the text `b`: at the first place
/// where they differ `a` has the lesser character, or `a` ends there and
/// `b` goes on.
pub open spec fn spec_text_before(a: Seq<char>, b: Seq<char>) -> bool
    decreases a.len(),
{
    if b.len() == 0 {
        false
    } else if a.len() == 0 {
        true
    } else if a[0] != b[0] {
        (a[0] as int) < (b[0] as int)
    } else {
        spec_text_before(a.skip(1), b.skip(1))
    }
}

/// `<` on `str` of the standard library, which orders texts by their
/// bytes and thereby by the code points of their characters, one after the
/// other.
#[verifier::external_body]
pub(crate) fn text_before(a: &str, b: &str) -> (before: bool)
    ensures
        before == spec_text_before(a@, b@),
{
    a < b
}

/// No text comes before itself.
pub proof fn lemma_text_before_irreflexive(a: Seq<char>)
    ensures
        !spec_text_before(a, a),
    decreases a.len(),
{
    if a.len() > 0 {
        lemma_text_before_irreflexive(a.skip(1));
    }
}

/// What comes before a text comes before all that the text comes before.
pub proof fn lemma_text_before_transitive(a: Seq<char>, b: Seq<char>, c: Seq<char>)
    requires
        spec_text_before(a, b),
        spec_text_before(b, c),
    ensures
        spec_text_before(a, c),
    decreases a.len(),
{
    if a.len() > 0 && a[0] == b[0] && b[0] == c[0] {
        lemma_text_before_transitive(a.skip(1), b.skip(1), c.skip(1));
    }
}

/// Of two texts that differ one comes before the other.
pub proof fn lemma_text_before_total(a: Seq<char>, b: Seq<char>)
    requires
        a != b,
    ensures
        spec_text_before(a, b) || spec_text_before(b, a),
    decreases a.len(),
{
    if a.len() > 0 && b.len() > 0 && a[0] == b[0] {
        if a.skip(1) == b.skip(1) {
            assert(a.skip(1).len() == a.len() - 1);
            assert(b.skip(1).len() == b.len() - 1);
            assert(a.len() == b.len());
            assert forall|i: int| 0 <= i < a.len() implies a[i] == b[i] by {
                if i > 0 {
                    assert(a.skip(1)[i - 1] == a[i]);
                    assert(b.skip(1)[i - 1] == b[i]);
                }
            }
            assert(a =~= b);
        }
        lemma_text_before_total(a.skip(1), b.skip(1));
    } else if a.len() > 0 && b.len() > 0 {
        assert(a[0] as int != b[0] as int);
    } else {
        assert(a.len() > 0 || b.len() > 0) by {
            if a.len() == 0 && b.len() == 0 {
                assert(a =~= b);
            }
        }
    }
}

/// The number that a text of decimal digits stands for.
pub open spec fn spec_decimal(digits: Seq<char>) -> nat
    decreases digits.len(),
{
    if digits.len() == 0 {
        0
    } else {
        10 * spec_decimal(digits.drop_last()) + (digits.last() as nat - '0' as nat) as nat
    }
}

/// What a text is as a `u32`: an optional `+`, then one or more decimal
/// digits whose number fits in 32 bits.
pub open spec fn spec_parse_u32(text: Seq<char>) -> Option<u32> {
    let digits = if text.len() > 0 && text[0] == '+' {
        text.skip(1)
    } else {
        text
    };
    if digits.len() > 0 && (forall|i: int| 0 <= i < digits.len() ==> '0' <= #[trigger] digits[i] <= '9')
        && spec_decimal(digits) <= u32::MAX {
        Some(spec_decimal(digits) as u32)
    } else {
        None
    }
}

/// `str::parse::<u32>` of the standard library, which accepts an optional
/// `+` sign followed by decimal digits and refuses the empty text, every
/// other character and a number that does not fit in 32 bits.
#[verifier::external_body]
pub(crate) fn parse_u32(text: &str) -> (value: Option<u32>)
    ensures
        value == spec_parse_u32(text@),
{
    text.parse::<u32>().ok()
}

} // verus!
