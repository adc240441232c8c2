//! The syntax tree of a datamodel source text.
//!
//! The tree is built once and never changed afterwards. Every node carries
//! the span of source text it was read from.

use crate::text::{owned, str_eq};
use vstd::prelude::*;

verus! {

/// A half-open range of byte offsets into the source text.
#[derive(Clone, Copy, Debug, PartialEq, Eq, Structural)]
pub struct Span {
    pub start: usize,
    pub end: usize,
}

impl Span {
    /// The span from `start` up to, not including, `end`.
    pub fn new(start: usize, end: usize) -> (span: Span)
        ensures
            span == (Span { start, end }),
    {
        Span { start, end }
    }

    /// The span of a node that was not read from any source text.
    pub fn empty() -> (span: Span)
        ensures
            span == (Span { start: 0, end: 0 }),
    {
        Span { start: 0, end: 0 }
    }
}

/// How many values a field holds.
#[derive(Clone, Copy, Debug, PartialEq, Eq, Structural)]
pub enum FieldArity {
    Required,
    Optional,
    List,
}

/// A literal value or expression, kept as written.
#[derive(Debug, PartialEq)]
pub enum Value {
    /// A number, as its source text.
    NumericValue(String, Span),
    /// `true` or `false`, as its source text.
    BooleanValue(String, Span),
    /// The text between the quotes of a string literal.
    StringValue(String, Span),
    /// An upper-case constant.
    ConstantValue(String, Span),
    /// A call `name(args…)`.
    Function(String, Vec<Value>, Span),
    /// A list `[a, b, …]`.
    Array(Vec<Value>, Span),
}

/// One argument of a directive or one property of a configuration block.
/// A positional argument has the empty name.
#[derive(Debug, PartialEq)]
pub struct Argument {
    pub name: String,
    pub value: Value,
    pub span: Span,
}

/// An annotation `@name(args…)` on a field or `@@name(args…)` on a model.
#[derive(Debug, PartialEq)]
pub struct Directive {
    pub name: String,
    pub arguments: Vec<Argument>,
    pub span: Span,
}

/// A field of a model, or the right-hand side of a type alias.
#[derive(Debug, PartialEq)]
pub struct Field {
    pub name: String,
    /// The name of the referenced type.
    pub field_type: String,
    pub field_type_span: Span,
    pub arity: FieldArity,
    pub directives: Vec<Directive>,
    pub span: Span,
}

/// A model declaration.
#[derive(Debug, PartialEq)]
pub struct Model {
    pub name: String,
    pub fields: Vec<Field>,
    pub directives: Vec<Directive>,
    pub span: Span,
}

/// One value of an enum declaration.
#[derive(Debug, PartialEq)]
pub struct EnumValue {
    pub name: String,
    pub span: Span,
}

/// An enum declaration.
#[derive(Debug, PartialEq)]
pub struct Enum {
    pub name: String,
    pub values: Vec<EnumValue>,
    pub span: Span,
}

/// A `datasource` or `generator` block: a name and its properties.
#[derive(Debug, PartialEq)]
pub struct ConfigBlock {
    pub name: String,
    pub properties: Vec<Argument>,
    pub span: Span,
}

/// A top-level declaration.
#[derive(Debug, PartialEq)]
pub enum Top {
    Model(Model),
    Enum(Enum),
    Source(ConfigBlock),
    Generator(ConfigBlock),
    /// A type alias `type Name = …`.
    Type(Field),
}

/// A whole source text: its declarations in source order.
#[derive(Debug, PartialEq)]
pub struct Datamodel {
    pub models: Vec<Top>,
}

/// A value, as plain values.
pub enum ValueView {
    Numeric(Seq<char>, Span),
    Boolean(Seq<char>, Span),
    String(Seq<char>, Span),
    Constant(Seq<char>, Span),
    Function(Seq<char>, Seq<ValueView>, Span),
    Array(Seq<ValueView>, Span),
}

/// An argument, as plain values.
pub struct ArgumentView {
    pub name: Seq<char>,
    pub value: ValueView,
    pub span: Span,
}

/// A directive, as plain values.
pub struct DirectiveView {
    pub name: Seq<char>,
    pub arguments: Seq<ArgumentView>,
    pub span: Span,
}

/// A field, as plain values.
pub struct FieldView {
    pub name: Seq<char>,
    pub field_type: Seq<char>,
    pub field_type_span: Span,
    pub arity: FieldArity,
    pub directives: Seq<DirectiveView>,
    pub span: Span,
}

/// A model declaration, as plain values.
pub struct ModelView {
    pub name: Seq<char>,
    pub fields: Seq<FieldView>,
    pub directives: Seq<DirectiveView>,
    pub span: Span,
}

/// A value of an enum declaration, as plain values.
pub struct EnumValueView {
    pub name: Seq<char>,
    pub span: Span,
}

/// An enum declaration, as plain values.
pub struct EnumView {
    pub name: Seq<char>,
    pub values: Seq<EnumValueView>,
    pub span: Span,
}

/// A configuration block, as plain values.
pub struct ConfigBlockView {
    pub name: Seq<char>,
    pub properties: Seq<ArgumentView>,
    pub span: Span,
}

/// A top-level declaration, as plain values.
pub enum TopView {
    Model(ModelView),
    Enum(EnumView),
    Source(ConfigBlockView),
    Generator(ConfigBlockView),
    Type(FieldView),
}

/// The view of a value, see [`Value::view`].
pub open spec fn value_view(value: Value) -> ValueView
    decreases value,
{
    match value {
        Value::NumericValue(text, span) => ValueView::Numeric(text@, span),
        Value::BooleanValue(text, span) => ValueView::Boolean(text@, span),
        Value::StringValue(text, span) => ValueView::String(text@, span),
        Value::ConstantValue(text, span) => ValueView::Constant(text@, span),
        Value::Function(name, args, span) => ValueView::Function(
            name@,
            Seq::new(
                args@.len(),
                |i: int|
                    if 0 <= i < args@.len() {
                        value_view(args@[i])
                    } else {
                        ValueView::Array(Seq::empty(), span)
                    },
            ),
            span,
        ),
        Value::Array(items, span) => ValueView::Array(
            Seq::new(
                items@.len(),
                |i: int|
                    if 0 <= i < items@.len() {
                        value_view(items@[i])
                    } else {
                        ValueView::Array(Seq::empty(), span)
                    },
            ),
            span,
        ),
    }
}

impl View for Value {
    type V = ValueView;

    open spec fn view(&self) -> ValueView {
        value_view(*self)
    }
}

impl DeepView for Value {
    type V = ValueView;

    open spec fn deep_view(&self) -> ValueView {
        self@
    }
}

impl View for Argument {
    type V = ArgumentView;

    open spec fn view(&self) -> ArgumentView {
        ArgumentView { name: self.name@, value: self.value@, span: self.span }
    }
}

impl DeepView for Argument {
    type V = ArgumentView;

    open spec fn deep_view(&self) -> ArgumentView {
        self@
    }
}

impl View for Directive {
    type V = DirectiveView;

    open spec fn view(&self) -> DirectiveView {
        DirectiveView {
            name: self.name@,
            arguments: self.arguments.deep_view(),
            span: self.span,
        }
    }
}

impl DeepView for Directive {
    type V = DirectiveView;

    open spec fn deep_view(&self) -> DirectiveView {
        self@
    }
}

impl View for Field {
    type V = FieldView;

    open spec fn view(&self) -> FieldView {
        FieldView {
            name: self.name@,
            field_type: self.field_type@,
            field_type_span: self.field_type_span,
            arity: self.arity,
            directives: self.directives.deep_view(),
            span: self.span,
        }
    }
}

impl DeepView for Field {
    type V = FieldView;

    open spec fn deep_view(&self) -> FieldView {
        self@
    }
}

impl View for Model {
    type V = ModelView;

    open spec fn view(&self) -> ModelView {
        ModelView {
            name: self.name@,
            fields: self.fields.deep_view(),
            directives: self.directives.deep_view(),
            span: self.span,
        }
    }
}

impl View for EnumValue {
    type V = EnumValueView;

    open spec fn view(&self) -> EnumValueView {
        EnumValueView { name: self.name@, span: self.span }
    }
}

impl DeepView for EnumValue {
    type V = EnumValueView;

    open spec fn deep_view(&self) -> EnumValueView {
        self@
    }
}

impl View for Enum {
    type V = EnumView;

    open spec fn view(&self) -> EnumView {
        EnumView { name: self.name@, values: self.values.deep_view(), span: self.span }
    }
}

impl View for ConfigBlock {
    type V = ConfigBlockView;

    open spec fn view(&self) -> ConfigBlockView {
        ConfigBlockView {
            name: self.name@,
            properties: self.properties.deep_view(),
            span: self.span,
        }
    }
}

impl View for Top {
    type V = TopView;

    open spec fn view(&self) -> TopView {
        match self {
            Top::Model(model) => TopView::Model(model@),
            Top::Enum(en) => TopView::Enum(en@),
            Top::Source(block) => TopView::Source(block@),
            Top::Generator(block) => TopView::Generator(block@),
            Top::Type(alias) => TopView::Type(alias@),
        }
    }
}

impl DeepView for Top {
    type V = TopView;

    open spec fn deep_view(&self) -> TopView {
        self@
    }
}

impl View for Datamodel {
    type V = Seq<TopView>;

    open spec fn view(&self) -> Seq<TopView> {
        self.models.deep_view()
    }
}

/// The view of a call is made of the views of its arguments, and the view
/// of a list of the views of its items.
pub proof fn lemma_view_of_nested(value: Value)
    ensures
        value matches Value::Function(name, args, span) ==> value@ == ValueView::Function(
            name@,
            args.deep_view(),
            span,
        ),
        value matches Value::Array(items, span) ==> value@ == ValueView::Array(
            items.deep_view(),
            span,
        ),
{
    match value {
        Value::Function(name, args, span) => {
            assert(value@->Function_1.len() == args@.len());
            assert(value@->Function_1 =~= args.deep_view());
        },
        Value::Array(items, span) => {
            assert(value@->Array_0 =~= items.deep_view());
        },
        _ => {},
    }
}

impl Directive {
    /// A directive that was not read from source text.
    pub fn new(name: &str, arguments: Vec<Argument>) -> (directive: Directive)
        ensures
            directive.name@ == name@,
            directive.arguments == arguments,
            directive.span == (Span { start: 0, end: 0 }),
    {
        Directive { name: owned(name), arguments, span: Span::empty() }
    }
}

impl Model {
    /// Whether `self.fields[i]` is the first field called `name`.
    pub open spec fn is_first_field_named(&self, i: int, name: Seq<char>) -> bool {
        &&& 0 <= i < self.fields@.len()
        &&& self.fields@[i].name@ == name
        &&& forall|j: int| 0 <= j < i ==> self.fields@[j].name@ != name
    }

    /// Whether some field is called `name`.
    pub open spec fn has_field(&self, name: Seq<char>) -> bool {
        exists|i: int| 0 <= i < self.fields@.len() && #[trigger] self.fields@[i].name@ == name
    }

    /// The first field called `name`.
    pub fn find_field(&self, name: &str) -> (found: Option<&Field>)
        ensures
            found is Some <==> self.has_field(name@),
            found matches Some(field) ==> exists|i: int|
                #[trigger] self.is_first_field_named(i, name@) && *field == self.fields@[i],
    {
        let mut i: usize = 0;
        while i < self.fields.len()
            invariant
                i <= self.fields@.len(),
                forall|j: int| 0 <= j < i ==> self.fields@[j].name@ != name@,
            decreases self.fields@.len() - i,
        {
            if str_eq(self.fields[i].name.as_str(), name) {
                assert(self.is_first_field_named(i as int, name@));
                return Some(&self.fields[i]);
            }
            i += 1;
        }
        None
    }
}

impl Datamodel {
    /// Whether `self.models[i]` is the first model declaration called `name`.
    pub open spec fn is_first_model_named(&self, i: int, name: Seq<char>) -> bool {
        &&& 0 <= i < self.models@.len()
        &&& self.models@[i] matches Top::Model(model)
        &&& model.name@ == name
        &&& forall|j: int|
            0 <= j < i ==> !(#[trigger] self.models@[j] matches Top::Model(other) && other.name@
                == name)
    }

    /// Whether some model declaration is called `name`.
    pub open spec fn has_model(&self, name: Seq<char>) -> bool {
        exists|i: int|
            0 <= i < self.models@.len() && (#[trigger] self.models@[i] matches Top::Model(model)
                && model.name@ == name)
    }

    /// The first model declaration called `name`, in the model of the syntax
    /// tree that contracts speak of.
    pub open spec fn spec_find_model(&self, name: Seq<char>) -> Option<Model> {
        if self.has_model(name) {
            let i = choose|i: int| self.is_first_model_named(i, name);
            Some(self.models@[i]->Model_0)
        } else {
            None
        }
    }

    /// The first field called `field` of the first model called `model`.
    pub open spec fn spec_find_field(&self, model: Seq<char>, field: Seq<char>) -> Option<Field> {
        match self.spec_find_model(model) {
            Some(m) => if m.has_field(field) {
                let i = choose|i: int| m.is_first_field_named(i, field);
                Some(m.fields@[i])
            } else {
                None
            },
            None => None,
        }
    }

    /// The first model declaration called `name`.
    pub fn find_model(&self, name: &str) -> (found: Option<&Model>)
        ensures
            found is Some <==> self.has_model(name@),
            found matches Some(model) ==> Some(*model) == self.spec_find_model(name@),
    {
        let mut i: usize = 0;
        while i < self.models.len()
            invariant
                i <= self.models@.len(),
                forall|j: int|
                    0 <= j < i ==> !(#[trigger] self.models@[j] matches Top::Model(other)
                        && other.name@ == name@),
            decreases self.models@.len() - i,
        {
            if let Top::Model(model) = &self.models[i] {
                if str_eq(model.name.as_str(), name) {
                    proof {
                        assert(self.is_first_model_named(i as int, name@));
                        self.lemma_first_model_is_unique(i as int, name@);
                    }
                    return Some(model);
                }
            }
            i += 1;
        }
        None
    }

    /// The first field called `field` of the first model called `model`.
    pub fn find_field(&self, model: &str, field: &str) -> (found: Option<&Field>)
        ensures
            found is Some <==> self.spec_find_field(model@, field@) is Some,
            found matches Some(f) ==> Some(*f) == self.spec_find_field(model@, field@),
    {
        match self.find_model(model) {
            Some(m) => {
                let found = m.find_field(field);
                proof {
                    if let Some(f) = found {
                        let i = choose|i: int|
                            #[trigger] m.is_first_field_named(i, field@) && *f == m.fields@[i];
                        m.lemma_first_field_is_unique(i, field@);
                    }
                }
                found
            },
            None => None,
        }
    }

    /// At most one index is that of the first model called `name`.
    pub proof fn lemma_first_model_is_unique(&self, i: int, name: Seq<char>)
        requires
            self.is_first_model_named(i, name),
        ensures
            self.has_model(name),
            self.spec_find_model(name) == Some(self.models@[i]->Model_0),
    {
        let k = choose|k: int| self.is_first_model_named(k, name);
        assert(self.is_first_model_named(k, name));
        if k < i {
            assert(self.models@[k] matches Top::Model(other) && other.name@ == name);
        }
        if i < k {
            assert(self.models@[i] matches Top::Model(other) && other.name@ == name);
        }
    }
}

impl Model {
    /// At most one index is that of the first field called `name`.
    pub proof fn lemma_first_field_is_unique(&self, i: int, name: Seq<char>)
        requires
            self.is_first_field_named(i, name),
        ensures
            self.has_field(name),
            (choose|k: int| self.is_first_field_named(k, name)) == i,
    {
        let k = choose|k: int| self.is_first_field_named(k, name);
        assert(self.is_first_field_named(k, name));
    }
}

} // verus!
