//! The MF2 data model.
//!
//! A parsed message is a tree of the types below, built bottom-up during a
//! single parse pass and never mutated afterwards.  Each executable type
//! has a mathematical counterpart (`Spec*`) reached through its view; the
//! grammar in [`crate::grammar`] and all contracts speak of those.
//!
//! Options and attributes are kept as ordered lists of name/value entries;
//! the parser rejects a repeated name, so the lists of every parsed message
//! have pairwise-distinct names (see [`crate::grammar`]).

use vstd::prelude::*;

verus! {

/// The views of a sequence's elements, in order.
pub open spec fn views<T: View>(s: Seq<T>) -> Seq<T::V> {
    s.map_values(|x: T| x@)
}

/// Taking views commutes with appending one element.
pub proof fn lemma_views_push<T: View>(s: Seq<T>, x: T)
    ensures
        views(s.push(x)) == views(s).push(x@),
{
    assert(views(s.push(x)) =~= views(s).push(x@));
}

/// The views of the empty sequence.
pub proof fn lemma_views_empty<T: View>()
    ensures
        views(Seq::<T>::empty()) == Seq::<T::V>::empty(),
{
    assert(views(Seq::<T>::empty()) =~= Seq::<T::V>::empty());
}

// ---------------------------------------------------------------------------
// Mathematical model
// ---------------------------------------------------------------------------

/// Mathematical value of a [`Message`].
pub enum SpecMessage {
    Pattern(SpecPatternMessage),
    Select(SpecSelectMessage),
}

/// Mathematical value of a [`PatternMessage`].
pub struct SpecPatternMessage {
    pub declarations: Seq<SpecDeclaration>,
    pub pattern: Seq<SpecPatternItem>,
}

/// Mathematical value of a [`SelectMessage`].
pub struct SpecSelectMessage {
    pub declarations: Seq<SpecDeclaration>,
    pub selectors: Seq<SpecVariableRef>,
    pub variants: Seq<SpecVariant>,
}

/// Mathematical value of a [`Variant`].
pub struct SpecVariant {
    pub keys: Seq<SpecVariantKey>,
    pub value: Seq<SpecPatternItem>,
}

/// Mathematical value of a [`CatchallKey`].
pub struct SpecCatchallKey {
    pub value: Option<Seq<char>>,
}

/// Mathematical value of an [`InputDeclaration`].
pub struct SpecInputDeclaration {
    pub name: Seq<char>,
    pub value: SpecVariableExpression,
}

/// Mathematical value of a [`LocalDeclaration`].
pub struct SpecLocalDeclaration {
    pub name: Seq<char>,
    pub value: SpecExpression,
}

/// Mathematical value of a [`Markup`].
pub struct SpecMarkup {
    pub name: Seq<char>,
    pub kind: MarkupKind,
    pub options: Seq<SpecOptionEntry>,
    pub attributes: Seq<SpecAttributeEntry>,
}

/// Mathematical value of a [`Literal`].
pub struct SpecLiteral {
    pub value: Seq<char>,
}

/// Mathematical value of a [`VariableRef`].
pub struct SpecVariableRef {
    pub name: Seq<char>,
}

/// Mathematical value of a [`LiteralExpression`].
pub struct SpecLiteralExpression {
    pub arg: SpecLiteral,
    pub function: Option<SpecFunctionRef>,
    pub attributes: Seq<SpecAttributeEntry>,
}

/// Mathematical value of a [`VariableExpression`].
pub struct SpecVariableExpression {
    pub arg: SpecVariableRef,
    pub function: Option<SpecFunctionRef>,
    pub attributes: Seq<SpecAttributeEntry>,
}

/// Mathematical value of a [`FunctionExpression`].
pub struct SpecFunctionExpression {
    pub function: SpecFunctionRef,
    pub attributes: Seq<SpecAttributeEntry>,
}

/// Mathematical value of a [`FunctionRef`].
pub struct SpecFunctionRef {
    pub name: Seq<char>,
    pub options: Seq<SpecOptionEntry>,
}

/// Mathematical value of an [`OptionEntry`].
pub struct SpecOptionEntry {
    pub name: Seq<char>,
    pub value: SpecOptionValue,
}

/// Mathematical value of an [`AttributeEntry`].
pub struct SpecAttributeEntry {
    pub name: Seq<char>,
    pub value: SpecAttributeValue,
}

/// Mathematical value of an [`OptionValue`].
pub enum SpecOptionValue {
    Literal(SpecLiteral),
    VariableRef(SpecVariableRef),
}

/// Mathematical value of a [`VariantKey`].
pub enum SpecVariantKey {
    Literal(SpecLiteral),
    CatchallKey(SpecCatchallKey),
}

/// Mathematical value of an [`AttributeValue`].
pub enum SpecAttributeValue {
    Literal(Seq<char>),
    True(bool),
}

/// Mathematical value of a [`Declaration`].
pub enum SpecDeclaration {
    Input(SpecInputDeclaration),
    Local(SpecLocalDeclaration),
}

/// Mathematical value of a [`PatternItem`].
pub enum SpecPatternItem {
    String(Seq<char>),
    Expression(SpecExpression),
    Markup(SpecMarkup),
}

/// Mathematical value of an [`Expression`].
pub enum SpecExpression {
    Literal(SpecLiteralExpression),
    Variable(SpecVariableExpression),
    Function(SpecFunctionExpression),
}

// ---------------------------------------------------------------------------
// Executable model
// ---------------------------------------------------------------------------

/// A complete parsed message: either a plain pattern or a selector-driven
/// set of variants.  Exactly one declaration list precedes the body.
#[derive(Debug, Clone, PartialEq, Eq)]
pub enum Message {
    Pattern(PatternMessage),
    Select(SelectMessage),
}

impl View for Message {
    type V = SpecMessage;

    open spec fn view(&self) -> SpecMessage {
        match self {
            Message::Pattern(m) => SpecMessage::Pattern(m@),
            Message::Select(m) => SpecMessage::Select(m@),
        }
    }
}

/// A message that renders a single pattern.
#[derive(Debug, Clone, PartialEq, Eq)]
pub struct PatternMessage {
    declarations: Vec<Declaration>,
    pub pattern: Vec<PatternItem>,
}

impl View for PatternMessage {
    type V = SpecPatternMessage;

    closed spec fn view(&self) -> SpecPatternMessage {
        SpecPatternMessage {
            declarations: views(self.declarations@),
            pattern: views(self.pattern@),
        }
    }
}

impl PatternMessage {
    /// An empty pattern message.
    pub fn new() -> (r: Self)
        ensures
            r@.declarations == Seq::<SpecDeclaration>::empty(),
            r@.pattern == Seq::<SpecPatternItem>::empty(),
    {
        let r = PatternMessage { declarations: Vec::new(), pattern: Vec::new() };
        proof {
            assert(views(r.declarations@) =~= Seq::<SpecDeclaration>::empty());
            assert(views(r.pattern@) =~= Seq::<SpecPatternItem>::empty());
        }
        r
    }

    /// Replaces the declaration list.
    pub fn set_declarations(&mut self, declarations: Vec<Declaration>)
        ensures
            final(self)@.declarations == views(declarations@),
            final(self)@.pattern == old(self)@.pattern,
    {
        self.declarations = declarations;
    }

    /// Replaces the pattern items.
    pub fn set_pattern(&mut self, pattern: Vec<PatternItem>)
        ensures
            final(self)@.pattern == views(pattern@),
            final(self)@.declarations == old(self)@.declarations,
    {
        self.pattern = pattern;
    }

    /// The pattern items, in rendering order.
    pub fn pattern(&self) -> (r: &Vec<PatternItem>)
        ensures
            views(r@) == self@.pattern,
    {
        &self.pattern
    }
}

/// A message whose output is chosen among variants by selector values.
#[derive(Debug, Clone, PartialEq, Eq)]
pub struct SelectMessage {
    declarations: Vec<Declaration>,
    selectors: Vec<VariableRef>,
    variants: Vec<Variant>,
}

impl View for SelectMessage {
    type V = SpecSelectMessage;

    closed spec fn view(&self) -> SpecSelectMessage {
        SpecSelectMessage {
            declarations: views(self.declarations@),
            selectors: views(self.selectors@),
            variants: views(self.variants@),
        }
    }
}

impl SelectMessage {
    /// An empty select message.
    pub fn new() -> (r: Self)
        ensures
            r@.declarations == Seq::<SpecDeclaration>::empty(),
            r@.selectors == Seq::<SpecVariableRef>::empty(),
            r@.variants == Seq::<SpecVariant>::empty(),
    {
        let r = SelectMessage { declarations: Vec::new(), selectors: Vec::new(), variants: Vec::new() };
        proof {
            assert(views(r.declarations@) =~= Seq::<SpecDeclaration>::empty());
            assert(views(r.selectors@) =~= Seq::<SpecVariableRef>::empty());
            assert(views(r.variants@) =~= Seq::<SpecVariant>::empty());
        }
        r
    }

    /// Replaces the declaration list.
    pub fn set_declarations(&mut self, declarations: Vec<Declaration>)
        ensures
            final(self)@.declarations == views(declarations@),
            final(self)@.selectors == old(self)@.selectors,
            final(self)@.variants == old(self)@.variants,
    {
        self.declarations = declarations;
    }

    /// Replaces the selector list.
    pub fn set_selectors(&mut self, selectors: Vec<VariableRef>)
        ensures
            final(self)@.selectors == views(selectors@),
            final(self)@.declarations == old(self)@.declarations,
            final(self)@.variants == old(self)@.variants,
    {
        self.selectors = selectors;
    }

    /// Replaces the variant list.
    pub fn set_variants(&mut self, variants: Vec<Variant>)
        ensures
            final(self)@.variants == views(variants@),
            final(self)@.declarations == old(self)@.declarations,
            final(self)@.selectors == old(self)@.selectors,
    {
        self.variants = variants;
    }
}

/// One arm of a select message: keys (one per selector) and a pattern.
#[derive(Debug, Clone, PartialEq, Eq)]
pub struct Variant {
    keys: Vec<VariantKey>,
    value: Vec<PatternItem>,
}

impl View for Variant {
    type V = SpecVariant;

    closed spec fn view(&self) -> SpecVariant {
        SpecVariant { keys: views(self.keys@), value: views(self.value@) }
    }
}

impl Variant {
    /// An empty variant.
    pub fn new() -> (r: Self)
        ensures
            r@.keys == Seq::<SpecVariantKey>::empty(),
            r@.value == Seq::<SpecPatternItem>::empty(),
    {
        let r = Variant { keys: Vec::new(), value: Vec::new() };
        proof {
            assert(views(r.keys@) =~= Seq::<SpecVariantKey>::empty());
            assert(views(r.value@) =~= Seq::<SpecPatternItem>::empty());
        }
        r
    }

    /// Replaces the keys.
    pub fn set_keys(&mut self, keys: Vec<VariantKey>)
        ensures
            final(self)@.keys == views(keys@),
            final(self)@.value == old(self)@.value,
    {
        self.keys = keys;
    }

    /// Replaces the pattern.
    pub fn set_value(&mut self, value: Vec<PatternItem>)
        ensures
            final(self)@.value == views(value@),
            final(self)@.keys == old(self)@.keys,
    {
        self.value = value;
    }
}

/// The catch-all variant key, written `*`.
#[derive(Debug, Clone, PartialEq, Eq)]
pub struct CatchallKey {
    value: Option<String>,
}

impl View for CatchallKey {
    type V = SpecCatchallKey;

    closed spec fn view(&self) -> SpecCatchallKey {
        SpecCatchallKey {
            value: match self.value {
                Some(ref s) => Some(s@),
                None => None,
            },
        }
    }
}

impl CatchallKey {
    /// A catch-all key with no associated value.
    pub fn new() -> (r: Self)
        ensures
            r@ == (SpecCatchallKey { value: None }),
    {
        CatchallKey { value: None }
    }
}

/// An `.input` declaration: binds the name of the referenced variable to
/// a bare variable expression.
#[derive(Debug, Clone, PartialEq, Eq)]
pub struct InputDeclaration {
    name: String,
    value: VariableExpression,
}

impl View for InputDeclaration {
    type V = SpecInputDeclaration;

    closed spec fn view(&self) -> SpecInputDeclaration {
        SpecInputDeclaration { name: self.name@, value: self.value@ }
    }
}

impl InputDeclaration {
    /// An input declaration with an empty name and value.
    pub fn new() -> (r: Self)
        ensures
            r@.name == Seq::<char>::empty(),
            r@.value.arg.name == Seq::<char>::empty(),
            r@.value.function is None,
            r@.value.attributes == Seq::<SpecAttributeEntry>::empty(),
    {
        InputDeclaration { name: String::new(), value: VariableExpression::new() }
    }

    /// Replaces the bound name.
    pub fn set_name(&mut self, name: String)
        ensures
            final(self)@.name == name@,
            final(self)@.value == old(self)@.value,
    {
        self.name = name;
    }

    /// Replaces the bound variable expression.
    pub fn set_value(&mut self, value: VariableExpression)
        ensures
            final(self)@.value == value@,
            final(self)@.name == old(self)@.name,
    {
        self.value = value;
    }
}

/// A `.local` declaration: binds a name to an arbitrary expression.
#[derive(Debug, Clone, PartialEq, Eq)]
pub struct LocalDeclaration {
    name: String,
    value: Expression,
}

impl View for LocalDeclaration {
    type V = SpecLocalDeclaration;

    closed spec fn view(&self) -> SpecLocalDeclaration {
        SpecLocalDeclaration { name: self.name@, value: self.value@ }
    }
}

impl LocalDeclaration {
    /// A local declaration of `value` with an empty name.
    pub fn new(value: Expression) -> (r: Self)
        ensures
            r@.name == Seq::<char>::empty(),
            r@.value == value@,
    {
        LocalDeclaration { name: String::new(), value }
    }

    /// Replaces the bound name.
    pub fn set_name(&mut self, name: String)
        ensures
            final(self)@.name == name@,
            final(self)@.value == old(self)@.value,
    {
        self.name = name;
    }
}

/// Whether a markup placeholder opens, closes, or stands alone.
#[derive(Debug, Clone, PartialEq, Eq, Structural)]
pub enum MarkupKind {
    Open,
    StandAlone,
    Close,
}

/// A markup placeholder: `{#tag}`, `{/tag}` or `{#tag/}`.
#[derive(Debug, Clone, PartialEq, Eq)]
pub struct Markup {
    name: String,
    pub kind: MarkupKind,
    options: Vec<OptionEntry>,
    attributes: Vec<AttributeEntry>,
}

impl View for Markup {
    type V = SpecMarkup;

    closed spec fn view(&self) -> SpecMarkup {
        SpecMarkup {
            name: self.name@,
            kind: self.kind,
            options: views(self.options@),
            attributes: views(self.attributes@),
        }
    }
}

impl Markup {
    /// An open markup with an empty name and no options or attributes.
    pub fn new() -> (r: Self)
        ensures
            r@.name == Seq::<char>::empty(),
            r@.kind == MarkupKind::Open,
            r@.options == Seq::<SpecOptionEntry>::empty(),
            r@.attributes == Seq::<SpecAttributeEntry>::empty(),
    {
        let r = Markup {
            name: String::new(),
            kind: MarkupKind::Open,
            options: Vec::new(),
            attributes: Vec::new(),
        };
        proof {
            assert(views(r.options@) =~= Seq::<SpecOptionEntry>::empty());
            assert(views(r.attributes@) =~= Seq::<SpecAttributeEntry>::empty());
        }
        r
    }

    /// Replaces the markup name.
    pub fn set_name(&mut self, name: String)
        ensures
            final(self)@ == (SpecMarkup { name: name@, ..old(self)@ }),
    {
        self.name = name;
    }

    /// Replaces the markup kind.
    pub fn set_kind(&mut self, kind: MarkupKind)
        ensures
            final(self)@ == (SpecMarkup { kind: kind, ..old(self)@ }),
    {
        self.kind = kind;
    }

    /// Replaces the option list.
    pub fn set_options(&mut self, options: Vec<OptionEntry>)
        ensures
            final(self)@ == (SpecMarkup { options: views(options@), ..old(self)@ }),
    {
        self.options = options;
    }

    /// Replaces the attribute list.
    pub fn set_attributes(&mut self, attributes: Vec<AttributeEntry>)
        ensures
            final(self)@ == (SpecMarkup { attributes: views(attributes@), ..old(self)@ }),
    {
        self.attributes = attributes;
    }
}

/// A literal value, quoted or unquoted.  The raw text is preserved,
/// including any escape sequences of a quoted literal.
#[derive(Debug, Clone, PartialEq, Eq)]
pub struct Literal {
    pub value: String,
}

impl View for Literal {
    type V = SpecLiteral;

    open spec fn view(&self) -> SpecLiteral {
        SpecLiteral { value: self.value@ }
    }
}

impl Literal {
    /// A literal holding `value`.
    pub fn new(value: String) -> (r: Self)
        ensures
            r@.value == value@,
    {
        Literal { value }
    }

    /// The normalized text of the literal.  Normalization is a declared
    /// hook of the data model and is currently the identity.
    pub fn normalize(&self) -> (r: String)
        ensures
            r@ == self@.value,
    {
        self.value.clone()
    }
}

/// A reference to an external or local variable, written `$name`.
#[derive(Debug, Clone, PartialEq, Eq)]
pub struct VariableRef {
    name: String,
}

impl View for VariableRef {
    type V = SpecVariableRef;

    closed spec fn view(&self) -> SpecVariableRef {
        SpecVariableRef { name: self.name@ }
    }
}

impl VariableRef {
    /// A variable reference with an empty name.
    pub fn new() -> (r: Self)
        ensures
            r@.name == Seq::<char>::empty(),
    {
        VariableRef { name: String::new() }
    }

    /// Replaces the referenced name.
    pub fn set_name(&mut self, name: String)
        ensures
            final(self)@.name == name@,
    {
        self.name = name;
    }
}

/// An expression whose argument is a literal.
#[derive(Debug, Clone, PartialEq, Eq)]
pub struct LiteralExpression {
    arg: Literal,
    function: Option<FunctionRef>,
    attributes: Vec<AttributeEntry>,
}

impl View for LiteralExpression {
    type V = SpecLiteralExpression;

    closed spec fn view(&self) -> SpecLiteralExpression {
        SpecLiteralExpression {
            arg: self.arg@,
            function: match self.function {
                Some(ref f) => Some(f@),
                None => None,
            },
            attributes: views(self.attributes@),
        }
    }
}

impl LiteralExpression {
    /// A literal expression with an empty argument and no function.
    pub fn new() -> (r: Self)
        ensures
            r@.arg.value == Seq::<char>::empty(),
            r@.function is None,
            r@.attributes == Seq::<SpecAttributeEntry>::empty(),
    {
        let r = LiteralExpression {
            arg: Literal::new(String::new()),
            function: None,
            attributes: Vec::new(),
        };
        proof {
            assert(views(r.attributes@) =~= Seq::<SpecAttributeEntry>::empty());
        }
        r
    }

    /// Replaces the literal argument.
    pub fn set_literal(&mut self, literal: Literal)
        ensures
            final(self)@ == (SpecLiteralExpression { arg: literal@, ..old(self)@ }),
    {
        self.arg = literal;
    }

    /// Attaches a function reference.
    pub fn set_function(&mut self, function: FunctionRef)
        ensures
            final(self)@ == (SpecLiteralExpression { function: Some(function@), ..old(self)@ }),
    {
        self.function = Some(function);
    }

    /// Replaces the attribute list.
    pub fn set_attributes(&mut self, attributes: Vec<AttributeEntry>)
        ensures
            final(self)@ == (SpecLiteralExpression {
                attributes: views(attributes@),
                ..old(self)@
            }),
    {
        self.attributes = attributes;
    }
}

/// An expression whose argument is a variable reference.
#[derive(Debug, Clone, PartialEq, Eq)]
pub struct VariableExpression {
    arg: VariableRef,
    function: Option<FunctionRef>,
    attributes: Vec<AttributeEntry>,
}

impl View for VariableExpression {
    type V = SpecVariableExpression;

    closed spec fn view(&self) -> SpecVariableExpression {
        SpecVariableExpression {
            arg: self.arg@,
            function: match self.function {
                Some(ref f) => Some(f@),
                None => None,
            },
            attributes: views(self.attributes@),
        }
    }
}

impl VariableExpression {
    /// A variable expression with an empty argument and no function.
    pub fn new() -> (r: Self)
        ensures
            r@.arg.name == Seq::<char>::empty(),
            r@.function is None,
            r@.attributes == Seq::<SpecAttributeEntry>::empty(),
    {
        let r = VariableExpression {
            arg: VariableRef::new(),
            function: None,
            attributes: Vec::new(),
        };
        proof {
            assert(views(r.attributes@) =~= Seq::<SpecAttributeEntry>::empty());
        }
        r
    }

    /// Replaces the variable argument.
    pub fn set_variable_ref(&mut self, variable_ref: VariableRef)
        ensures
            final(self)@ == (SpecVariableExpression { arg: variable_ref@, ..old(self)@ }),
    {
        self.arg = variable_ref;
    }

    /// Attaches a function reference.
    pub fn set_function(&mut self, function: FunctionRef)
        ensures
            final(self)@ == (SpecVariableExpression { function: Some(function@), ..old(self)@ }),
    {
        self.function = Some(function);
    }

    /// Replaces the attribute list.
    pub fn set_attributes(&mut self, attributes: Vec<AttributeEntry>)
        ensures
            final(self)@ == (SpecVariableExpression {
                attributes: views(attributes@),
                ..old(self)@
            }),
    {
        self.attributes = attributes;
    }

    /// The name of the referenced variable.
    pub fn get_variable_name(&self) -> (r: String)
        ensures
            r@ == self@.arg.name,
    {
        self.arg.name.clone()
    }
}

/// An expression with no argument, only a function reference.
#[derive(Debug, Clone, PartialEq, Eq)]
pub struct FunctionExpression {
    function: FunctionRef,
    attributes: Vec<AttributeEntry>,
}

impl View for FunctionExpression {
    type V = SpecFunctionExpression;

    closed spec fn view(&self) -> SpecFunctionExpression {
        SpecFunctionExpression {
            function: self.function@,
            attributes: views(self.attributes@),
        }
    }
}

impl FunctionExpression {
    /// A function expression with an empty function reference.
    pub fn new() -> (r: Self)
        ensures
            r@.function.name == Seq::<char>::empty(),
            r@.function.options == Seq::<SpecOptionEntry>::empty(),
            r@.attributes == Seq::<SpecAttributeEntry>::empty(),
    {
        let r = FunctionExpression { function: FunctionRef::new(), attributes: Vec::new() };
        proof {
            assert(views(r.attributes@) =~= Seq::<SpecAttributeEntry>::empty());
        }
        r
    }

    /// Replaces the function reference.
    pub fn set_function(&mut self, function: FunctionRef)
        ensures
            final(self)@ == (SpecFunctionExpression { function: function@, ..old(self)@ }),
    {
        self.function = function;
    }

    /// Replaces the attribute list.
    pub fn set_attributes(&mut self, attributes: Vec<AttributeEntry>)
        ensures
            final(self)@ == (SpecFunctionExpression {
                attributes: views(attributes@),
                ..old(self)@
            }),
    {
        self.attributes = attributes;
    }
}

/// A function reference: a name (possibly `namespace:local`) and options.
#[derive(Debug, Clone, PartialEq, Eq)]
pub struct FunctionRef {
    pub name: String,
    options: Vec<OptionEntry>,
}

impl View for FunctionRef {
    type V = SpecFunctionRef;

    closed spec fn view(&self) -> SpecFunctionRef {
        SpecFunctionRef { name: self.name@, options: views(self.options@) }
    }
}

impl FunctionRef {
    /// A function reference with an empty name and no options.
    pub fn new() -> (r: Self)
        ensures
            r@.name == Seq::<char>::empty(),
            r@.options == Seq::<SpecOptionEntry>::empty(),
    {
        let r = FunctionRef { name: String::new(), options: Vec::new() };
        proof {
            assert(views(r.options@) =~= Seq::<SpecOptionEntry>::empty());
        }
        r
    }

    /// Replaces the function name.
    pub fn set_name(&mut self, name: String)
        ensures
            final(self)@ == (SpecFunctionRef { name: name@, ..old(self)@ }),
    {
        self.name = name;
    }

    /// Replaces the option list.
    pub fn set_options(&mut self, options: Vec<OptionEntry>)
        ensures
            final(self)@ == (SpecFunctionRef { options: views(options@), ..old(self)@ }),
    {
        self.options = options;
    }
}

/// One named option of a function or markup.
#[derive(Debug, Clone, PartialEq, Eq)]
pub struct OptionEntry {
    pub name: String,
    pub value: OptionValue,
}

impl View for OptionEntry {
    type V = SpecOptionEntry;

    open spec fn view(&self) -> SpecOptionEntry {
        SpecOptionEntry { name: self.name@, value: self.value@ }
    }
}

impl OptionEntry {
    /// An option named `name` with value `value`.
    pub fn new(name: String, value: OptionValue) -> (r: Self)
        ensures
            r@.name == name@,
            r@.value == value@,
    {
        OptionEntry { name, value }
    }
}

/// One named attribute of an expression or markup.
#[derive(Debug, Clone, PartialEq, Eq)]
pub struct AttributeEntry {
    pub name: String,
    pub value: AttributeValue,
}

impl View for AttributeEntry {
    type V = SpecAttributeEntry;

    open spec fn view(&self) -> SpecAttributeEntry {
        SpecAttributeEntry { name: self.name@, value: self.value@ }
    }
}

impl AttributeEntry {
    /// An attribute named `name` with value `value`.
    pub fn new(name: String, value: AttributeValue) -> (r: Self)
        ensures
            r@.name == name@,
            r@.value == value@,
    {
        AttributeEntry { name, value }
    }
}

/// The value of an option: a literal or a variable reference.
#[derive(Debug, Clone, PartialEq, Eq)]
pub enum OptionValue {
    Literal(Literal),
    VariableRef(VariableRef),
}

impl View for OptionValue {
    type V = SpecOptionValue;

    open spec fn view(&self) -> SpecOptionValue {
        match self {
            OptionValue::Literal(l) => SpecOptionValue::Literal(l@),
            OptionValue::VariableRef(v) => SpecOptionValue::VariableRef(v@),
        }
    }
}

/// A variant key: a literal or the catch-all `*`.
#[derive(Debug, Clone, PartialEq, Eq)]
pub enum VariantKey {
    Literal(Literal),
    CatchallKey(CatchallKey),
}

impl View for VariantKey {
    type V = SpecVariantKey;

    open spec fn view(&self) -> SpecVariantKey {
        match self {
            VariantKey::Literal(l) => SpecVariantKey::Literal(l@),
            VariantKey::CatchallKey(c) => SpecVariantKey::CatchallKey(c@),
        }
    }
}

/// The value of an attribute: `@name=literal`, or bare `@name` (true).
#[derive(Debug, Clone, PartialEq, Eq)]
pub enum AttributeValue {
    Literal(String),
    True(bool),
}

impl View for AttributeValue {
    type V = SpecAttributeValue;

    open spec fn view(&self) -> SpecAttributeValue {
        match self {
            AttributeValue::Literal(s) => SpecAttributeValue::Literal(s@),
            AttributeValue::True(b) => SpecAttributeValue::True(*b),
        }
    }
}

/// A declaration preceding the message body.
#[derive(Debug, Clone, PartialEq, Eq)]
pub enum Declaration {
    Input(InputDeclaration),
    Local(LocalDeclaration),
}

impl View for Declaration {
    type V = SpecDeclaration;

    open spec fn view(&self) -> SpecDeclaration {
        match self {
            Declaration::Input(d) => SpecDeclaration::Input(d@),
            Declaration::Local(d) => SpecDeclaration::Local(d@),
        }
    }
}

/// One element of a pattern: a text run, an expression, or markup.
#[derive(Debug, Clone, PartialEq, Eq)]
pub enum PatternItem {
    String(String),
    Expression(Expression),
    Markup(Markup),
}

impl View for PatternItem {
    type V = SpecPatternItem;

    open spec fn view(&self) -> SpecPatternItem {
        match self {
            PatternItem::String(s) => SpecPatternItem::String(s@),
            PatternItem::Expression(e) => SpecPatternItem::Expression(e@),
            PatternItem::Markup(m) => SpecPatternItem::Markup(m@),
        }
    }
}

/// A placeholder expression: literal, variable, or bare function form.
#[derive(Debug, Clone, PartialEq, Eq)]
pub enum Expression {
    Literal(LiteralExpression),
    Variable(VariableExpression),
    Function(FunctionExpression),
}

impl View for Expression {
    type V = SpecExpression;

    open spec fn view(&self) -> SpecExpression {
        match self {
            Expression::Literal(e) => SpecExpression::Literal(e@),
            Expression::Variable(e) => SpecExpression::Variable(e@),
            Expression::Function(e) => SpecExpression::Function(e@),
        }
    }
}

} // verus!
