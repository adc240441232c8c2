//! From the tokens of a parse to the syntax tree.
//!
//! Every function here is total: where the tokens do not have the shape
//! that the grammar gives them, a missing name is the empty text, and a
//! missing value the empty constant.

use crate::ast::{
    lemma_view_of_nested, Argument, ArgumentView, ConfigBlock, ConfigBlockView, Datamodel, Directive, DirectiveView,
    Enum, EnumValue, EnumValueView, EnumView, Field, FieldArity, FieldView, Model, ModelView,
    Span, Top, TopView, Value, ValueView,
};
use crate::first::{first_where, lemma_first_where, lemma_first_where_is};
use crate::parser::grammar::{
    ARGUMENT, ARGUMENT_NAME, ARGUMENT_VALUE, ARRAY_EXPRESSION, BASE_TYPE, BLOCK_LEVEL_DIRECTIVE,
    BOOLEAN_LITERAL, DIRECTIVE, DIRECTIVE_ARGUMENTS, DIRECTIVE_NAME, ENUM_DECLARATION,
    ENUM_FIELD_DECLARATION, EXPRESSION, FIELD_DECLARATION, FIELD_TYPE, FUNCTION, GENERATOR_BLOCK,
    IDENTIFIER, KEY_VALUE, LEGACY_LIST_TYPE, LIST_TYPE, MODEL_DECLARATION, NUMERIC_LITERAL,
    OPTIONAL_TYPE, SOURCE_BLOCK, STRING_CONTENT, STRING_LITERAL, TYPE_DECLARATION,
};
use crate::peg::{children, children_of, Token};
use crate::text::{slice, slice_of};
use vstd::prelude::*;

verus! {

/// The span that token `t` matched.
pub open spec fn span_at(tokens: Seq<Token>, t: usize) -> Span {
    Span { start: tokens[t as int].start, end: tokens[t as int].end }
}

/// The text that token `t` matched.
pub open spec fn text_at(input: Seq<char>, tokens: Seq<Token>, t: usize) -> Seq<char> {
    slice_of(input, tokens[t as int].start as int, tokens[t as int].end as int)
}

/// Whether a token is the token of `rule`.
pub open spec fn has_rule(tokens: Seq<Token>, rule: usize) -> spec_fn(usize) -> bool {
    |t: usize| tokens[t as int].rule == rule
}

/// What `make` gives for those of `kids` that `keep` holds of, in their
/// order.
pub open spec fn collect<T>(
    kids: Seq<usize>,
    keep: spec_fn(usize) -> bool,
    make: spec_fn(usize) -> T,
) -> Seq<T>
    decreases kids.len(),
{
    if kids.len() == 0 {
        Seq::empty()
    } else {
        let rest = collect(kids.drop_last(), keep, make);
        if keep(kids.last()) {
            rest.push(make(kids.last()))
        } else {
            rest
        }
    }
}

/// What one more of `kids` adds to what was collected.
proof fn lemma_collect_next<T>(
    kids: Seq<usize>,
    k: int,
    keep: spec_fn(usize) -> bool,
    make: spec_fn(usize) -> T,
)
    requires
        0 <= k < kids.len(),
    ensures
        collect(kids.subrange(0, k + 1), keep, make) == if keep(kids[k]) {
            collect(kids.subrange(0, k), keep, make).push(make(kids[k]))
        } else {
            collect(kids.subrange(0, k), keep, make)
        },
{
    assert(kids.subrange(0, k + 1).drop_last() =~= kids.subrange(0, k));
}

/// The first of `kids` that is a token of `rule`.
pub open spec fn first_of(tokens: Seq<Token>, kids: Seq<usize>, rule: usize) -> Option<usize> {
    match first_where(kids.len() as int, |k: int| tokens[kids[k] as int].rule == rule) {
        Some(k) => Some(kids[k]),
        None => None,
    }
}

/// The text of the first of `kids` that is a token of `rule`; the empty
/// text if none is.
pub open spec fn name_among(
    input: Seq<char>,
    tokens: Seq<Token>,
    kids: Seq<usize>,
    rule: usize,
) -> Seq<char> {
    match first_of(tokens, kids, rule) {
        Some(t) => text_at(input, tokens, t),
        None => Seq::empty(),
    }
}

/// The value that stands for a missing one.
pub open spec fn no_value(span: Span) -> ValueView {
    ValueView::Constant(Seq::empty(), span)
}

/// The value at a token inside token `t`.
pub open spec fn value_inside(input: Seq<char>, tokens: Seq<Token>, t: usize) -> spec_fn(
    usize,
) -> ValueView
    decreases tokens.len() - t, 0nat,
{
    |c: usize|
        if t < c < tokens.len() {
            value_at(input, tokens, c)
        } else {
            no_value(span_at(tokens, t))
        }
}

/// The value that token `t` stands for: a literal, a call with its
/// arguments, a list with its items, or what the one token inside an
/// expression stands for.
pub open spec fn value_at(input: Seq<char>, tokens: Seq<Token>, t: usize) -> ValueView
    decreases tokens.len() - t, 1nat,
{
    let rule = tokens[t as int].rule;
    let span = span_at(tokens, t);
    let kids = children(tokens, t as int);
    if t >= tokens.len() {
        no_value(span)
    } else if rule == NUMERIC_LITERAL {
        ValueView::Numeric(text_at(input, tokens, t), span)
    } else if rule == STRING_LITERAL {
        ValueView::String(name_among(input, tokens, kids, STRING_CONTENT), span)
    } else if rule == BOOLEAN_LITERAL {
        ValueView::Boolean(text_at(input, tokens, t), span)
    } else if rule == FUNCTION {
        ValueView::Function(
            name_among(input, tokens, kids, IDENTIFIER),
            collect(kids, has_rule(tokens, ARGUMENT_VALUE), value_inside(input, tokens, t)),
            span,
        )
    } else if rule == ARRAY_EXPRESSION {
        ValueView::Array(
            collect(kids, has_rule(tokens, EXPRESSION), value_inside(input, tokens, t)),
            span,
        )
    } else if (rule == EXPRESSION || rule == ARGUMENT_VALUE) && kids.len() > 0 {
        value_inside(input, tokens, t)(kids[0])
    } else {
        ValueView::Constant(text_at(input, tokens, t), span)
    }
}

/// The value of the first of `kids` that is a token of `rule`.
pub open spec fn value_among(
    input: Seq<char>,
    tokens: Seq<Token>,
    kids: Seq<usize>,
    rule: usize,
    span: Span,
) -> ValueView {
    match first_of(tokens, kids, rule) {
        Some(t) => value_at(input, tokens, t),
        None => no_value(span),
    }
}

/// The argument that token `t` stands for: a named argument, or a value,
/// which is an argument with the empty name.
pub open spec fn argument_at(input: Seq<char>, tokens: Seq<Token>) -> spec_fn(usize) -> ArgumentView {
    |t: usize|
        {
            let kids = children(tokens, t as int);
            let span = span_at(tokens, t);
            if tokens[t as int].rule == ARGUMENT {
                ArgumentView {
                    name: name_among(input, tokens, kids, ARGUMENT_NAME),
                    value: value_among(input, tokens, kids, ARGUMENT_VALUE, span),
                    span,
                }
            } else {
                ArgumentView { name: Seq::empty(), value: value_at(input, tokens, t), span }
            }
        }
}

/// The property that token `t` stands for: `name = value`.
pub open spec fn property_at(input: Seq<char>, tokens: Seq<Token>) -> spec_fn(usize) -> ArgumentView {
    |t: usize|
        {
            let kids = children(tokens, t as int);
            let span = span_at(tokens, t);
            ArgumentView {
                name: name_among(input, tokens, kids, IDENTIFIER),
                value: value_among(input, tokens, kids, EXPRESSION, span),
                span,
            }
        }
}

/// Whether a token stands for an argument, named or not.
pub open spec fn is_argument(tokens: Seq<Token>) -> spec_fn(usize) -> bool {
    |t: usize| tokens[t as int].rule == ARGUMENT || tokens[t as int].rule == ARGUMENT_VALUE
}

/// The token of the directive itself, where `t` is the token of a directive
/// or of a directive on a model.
pub open spec fn directive_token(tokens: Seq<Token>, t: usize) -> usize {
    if tokens[t as int].rule == BLOCK_LEVEL_DIRECTIVE {
        match first_of(tokens, children(tokens, t as int), DIRECTIVE) {
            Some(inner) => inner,
            None => t,
        }
    } else {
        t
    }
}

/// The directive that token `t` stands for.
pub open spec fn directive_at(input: Seq<char>, tokens: Seq<Token>) -> spec_fn(usize) -> DirectiveView {
    |t: usize|
        {
            let d = directive_token(tokens, t);
            let kids = children(tokens, d as int);
            DirectiveView {
                name: name_among(input, tokens, kids, DIRECTIVE_NAME),
                arguments: match first_of(tokens, kids, DIRECTIVE_ARGUMENTS) {
                    Some(list) => collect(
                        children(tokens, list as int),
                        is_argument(tokens),
                        argument_at(input, tokens),
                    ),
                    None => Seq::empty(),
                },
                span: span_at(tokens, d),
            }
        }
}

/// Whether a token stands for a directive, on a field or on a model.
pub open spec fn is_directive(tokens: Seq<Token>) -> spec_fn(usize) -> bool {
    |t: usize| tokens[t as int].rule == DIRECTIVE || tokens[t as int].rule == BLOCK_LEVEL_DIRECTIVE
}

/// How many values a field holds whose type was written by `rule`.
pub open spec fn arity_of(rule: usize) -> FieldArity {
    if rule == LIST_TYPE || rule == LEGACY_LIST_TYPE {
        FieldArity::List
    } else if rule == OPTIONAL_TYPE {
        FieldArity::Optional
    } else {
        FieldArity::Required
    }
}

/// The token that says how the type of a field was written, among the
/// tokens `kids` of a field or of a type alias.
pub open spec fn type_token(tokens: Seq<Token>, kids: Seq<usize>) -> Option<usize> {
    match first_of(tokens, kids, FIELD_TYPE) {
        Some(field_type) => {
            let notations = children(tokens, field_type as int);
            if notations.len() > 0 {
                Some(notations[0])
            } else {
                None
            }
        },
        None => first_of(tokens, kids, BASE_TYPE),
    }
}

/// The field that token `t` stands for, the token of a field or of a type
/// alias.
pub open spec fn field_at(input: Seq<char>, tokens: Seq<Token>) -> spec_fn(usize) -> FieldView {
    |t: usize|
        {
            let kids = children(tokens, t as int);
            let named = match type_token(tokens, kids) {
                Some(notation) => first_of(tokens, children(tokens, notation as int), IDENTIFIER),
                None => None,
            };
            FieldView {
                name: name_among(input, tokens, kids, IDENTIFIER),
                field_type: match named {
                    Some(name) => text_at(input, tokens, name),
                    None => Seq::empty(),
                },
                field_type_span: match named {
                    Some(name) => span_at(tokens, name),
                    None => Span { start: 0, end: 0 },
                },
                arity: match type_token(tokens, kids) {
                    Some(notation) => arity_of(tokens[notation as int].rule),
                    None => FieldArity::Required,
                },
                directives: collect(kids, is_directive(tokens), directive_at(input, tokens)),
                span: span_at(tokens, t),
            }
        }
}

/// The model that token `t` stands for.
pub open spec fn model_at(input: Seq<char>, tokens: Seq<Token>, t: usize) -> ModelView {
    let kids = children(tokens, t as int);
    ModelView {
        name: name_among(input, tokens, kids, IDENTIFIER),
        fields: collect(kids, has_rule(tokens, FIELD_DECLARATION), field_at(input, tokens)),
        directives: collect(kids, is_directive(tokens), directive_at(input, tokens)),
        span: span_at(tokens, t),
    }
}

/// The enum value that token `t` stands for.
pub open spec fn enum_value_at(input: Seq<char>, tokens: Seq<Token>) -> spec_fn(
    usize,
) -> EnumValueView {
    |t: usize| EnumValueView { name: text_at(input, tokens, t), span: span_at(tokens, t) }
}

/// The enum that token `t` stands for.
pub open spec fn enum_at(input: Seq<char>, tokens: Seq<Token>, t: usize) -> EnumView {
    let kids = children(tokens, t as int);
    EnumView {
        name: name_among(input, tokens, kids, IDENTIFIER),
        values: collect(
            kids,
            has_rule(tokens, ENUM_FIELD_DECLARATION),
            enum_value_at(input, tokens),
        ),
        span: span_at(tokens, t),
    }
}

/// The configuration block that token `t` stands for.
pub open spec fn block_at(input: Seq<char>, tokens: Seq<Token>, t: usize) -> ConfigBlockView {
    let kids = children(tokens, t as int);
    ConfigBlockView {
        name: name_among(input, tokens, kids, IDENTIFIER),
        properties: collect(kids, has_rule(tokens, KEY_VALUE), property_at(input, tokens)),
        span: span_at(tokens, t),
    }
}

/// Whether a token stands for a declaration.
pub open spec fn is_declaration(tokens: Seq<Token>) -> spec_fn(usize) -> bool {
    |t: usize|
        {
            let rule = tokens[t as int].rule;
            rule == MODEL_DECLARATION || rule == ENUM_DECLARATION || rule == SOURCE_BLOCK || rule
                == GENERATOR_BLOCK || rule == TYPE_DECLARATION
        }
}

/// The declaration that token `t` stands for.
pub open spec fn declaration_at(input: Seq<char>, tokens: Seq<Token>) -> spec_fn(usize) -> TopView {
    |t: usize|
        {
            let rule = tokens[t as int].rule;
            if rule == MODEL_DECLARATION {
                TopView::Model(model_at(input, tokens, t))
            } else if rule == ENUM_DECLARATION {
                TopView::Enum(enum_at(input, tokens, t))
            } else if rule == SOURCE_BLOCK {
                TopView::Source(block_at(input, tokens, t))
            } else if rule == GENERATOR_BLOCK {
                TopView::Generator(block_at(input, tokens, t))
            } else {
                TopView::Type(field_at(input, tokens)(t))
            }
        }
}

/// The syntax tree that the tokens of a parse stand for: the declarations
/// inside the first token, the token of the whole text.
pub open spec fn tree_of(input: Seq<char>, tokens: Seq<Token>) -> Seq<TopView> {
    collect(children(tokens, 0), is_declaration(tokens), declaration_at(input, tokens))
}

/// Whether all of `kids` are tokens after `parent`.
pub open spec fn are_inside(tokens: Seq<Token>, kids: Seq<usize>, parent: usize) -> bool {
    forall|k: int| 0 <= k < kids.len() ==> parent < #[trigger] kids[k] < tokens.len()
}

/// A source text and the tokens of its parse.
pub struct Reader<'a> {
    pub input: &'a str,
    pub tokens: &'a Vec<Token>,
}

impl<'a> Reader<'a> {
    /// The span that token `t` matched.
    fn span(&self, t: usize) -> (span: Span)
        requires
            t < self.tokens@.len(),
        ensures
            span == span_at(self.tokens@, t),
    {
        Span::new(self.tokens[t].start, self.tokens[t].end)
    }

    /// The text that token `t` matched.
    fn text(&self, t: usize) -> (text: String)
        requires
            t < self.tokens@.len(),
        ensures
            text@ == text_at(self.input@, self.tokens@, t),
    {
        slice(self.input, self.tokens[t].start, self.tokens[t].end)
    }

    /// The first of `kids` that is a token of `rule`.
    fn first(&self, kids: &Vec<usize>, rule: usize, Ghost(parent): Ghost<usize>) -> (found:
        Option<usize>)
        requires
            are_inside(self.tokens@, kids@, parent),
        ensures
            found == first_of(self.tokens@, kids@, rule),
            found matches Some(t) ==> parent < t < self.tokens@.len(),
    {
        let ghost is_rule = |k: int| self.tokens@[kids@[k] as int].rule == rule;
        let mut k: usize = 0;
        while k < kids.len()
            invariant
                k <= kids@.len(),
                are_inside(self.tokens@, kids@, parent),
                is_rule == (|k: int| self.tokens@[kids@[k] as int].rule == rule),
                forall|j: int| 0 <= j < k ==> !#[trigger] is_rule(j),
            decreases kids@.len() - k,
        {
            if self.tokens[kids[k]].rule == rule {
                proof {
                    assert(is_rule(k as int));
                    lemma_first_where_is(kids@.len() as int, is_rule, k as int);
                }
                return Some(kids[k]);
            }
            k += 1;
        }
        proof {
            lemma_first_where(kids@.len() as int, is_rule);
        }
        None
    }

    /// The text of the first of `kids` that is a token of `rule`.
    fn name(&self, kids: &Vec<usize>, rule: usize, Ghost(parent): Ghost<usize>) -> (name: String)
        requires
            are_inside(self.tokens@, kids@, parent),
        ensures
            name@ == name_among(self.input@, self.tokens@, kids@, rule),
    {
        match self.first(kids, rule, Ghost(parent)) {
            Some(t) => self.text(t),
            None => String::new(),
        }
    }

    /// The values of those of `kids`, tokens inside `t`, that are tokens of
    /// `rule`.
    fn values(&self, kids: &Vec<usize>, rule: usize, t: usize) -> (values: Vec<Value>)
        requires
            t < self.tokens@.len(),
            are_inside(self.tokens@, kids@, t),
        ensures
            values.deep_view() == collect(
                kids@,
                has_rule(self.tokens@, rule),
                value_inside(self.input@, self.tokens@, t),
            ),
        decreases self.tokens@.len() - t, 0nat,
    {
        let mut values: Vec<Value> = Vec::new();
        let ghost keep = has_rule(self.tokens@, rule);
        let ghost make = value_inside(self.input@, self.tokens@, t);
        let mut k: usize = 0;
        assert(kids@.subrange(0, 0) =~= Seq::<usize>::empty());
        assert(values.deep_view() =~= Seq::<ValueView>::empty());
        while k < kids.len()
            invariant
                k <= kids@.len(),
                t < self.tokens@.len(),
                are_inside(self.tokens@, kids@, t),
                keep == has_rule(self.tokens@, rule),
                make == value_inside(self.input@, self.tokens@, t),
                values.deep_view() == collect(kids@.subrange(0, k as int), keep, make),
            decreases kids@.len() - k,
        {
            proof {
                lemma_collect_next(kids@, k as int, keep, make);
            }
            if self.tokens[kids[k]].rule == rule {
                let ghost before = values.deep_view();
                let value = self.value(kids[k]);
                values.push(value);
                assert(values.deep_view() =~= before.push(value@));
            }
            k += 1;
        }
        assert(kids@.subrange(0, k as int) =~= kids@);
        values
    }

    /// The value that token `t` stands for, see [`value_at`].
    fn value(&self, t: usize) -> (value: Value)
        requires
            t < self.tokens@.len(),
        ensures
            value@ == value_at(self.input@, self.tokens@, t),
        decreases self.tokens@.len() - t, 1nat,
    {
        let rule = self.tokens[t].rule;
        let span = self.span(t);
        let kids = children_of(self.tokens, t);
        if rule == NUMERIC_LITERAL {
            Value::NumericValue(self.text(t), span)
        } else if rule == STRING_LITERAL {
            Value::StringValue(self.name(&kids, STRING_CONTENT, Ghost(t)), span)
        } else if rule == BOOLEAN_LITERAL {
            Value::BooleanValue(self.text(t), span)
        } else if rule == FUNCTION {
            let name = self.name(&kids, IDENTIFIER, Ghost(t));
            let args = self.values(&kids, ARGUMENT_VALUE, t);
            let value = Value::Function(name, args, span);
            proof {
                lemma_view_of_nested(value);
            }
            value
        } else if rule == ARRAY_EXPRESSION {
            let items = self.values(&kids, EXPRESSION, t);
            let value = Value::Array(items, span);
            proof {
                lemma_view_of_nested(value);
            }
            value
        } else if (rule == EXPRESSION || rule == ARGUMENT_VALUE) && kids.len() > 0 {
            self.value(kids[0])
        } else {
            Value::ConstantValue(self.text(t), span)
        }
    }

    /// The value of the first of `kids` that is a token of `rule`.
    fn value_of(&self, kids: &Vec<usize>, rule: usize, span: Span, Ghost(parent): Ghost<usize>) -> (value:
        Value)
        requires
            are_inside(self.tokens@, kids@, parent),
        ensures
            value@ == value_among(self.input@, self.tokens@, kids@, rule, span),
    {
        match self.first(kids, rule, Ghost(parent)) {
            Some(t) => self.value(t),
            None => Value::ConstantValue(String::new(), span),
        }
    }

    /// The argument that token `t` stands for, see [`argument_at`].
    fn argument(&self, t: usize) -> (argument: Argument)
        requires
            t < self.tokens@.len(),
        ensures
            argument@ == argument_at(self.input@, self.tokens@)(t),
    {
        let kids = children_of(self.tokens, t);
        let span = self.span(t);
        if self.tokens[t].rule == ARGUMENT {
            Argument {
                name: self.name(&kids, ARGUMENT_NAME, Ghost(t)),
                value: self.value_of(&kids, ARGUMENT_VALUE, span, Ghost(t)),
                span,
            }
        } else {
            Argument { name: String::new(), value: self.value(t), span }
        }
    }

    /// The property that token `t` stands for, see [`property_at`].
    fn property(&self, t: usize) -> (property: Argument)
        requires
            t < self.tokens@.len(),
        ensures
            property@ == property_at(self.input@, self.tokens@)(t),
    {
        let kids = children_of(self.tokens, t);
        let span = self.span(t);
        Argument {
            name: self.name(&kids, IDENTIFIER, Ghost(t)),
            value: self.value_of(&kids, EXPRESSION, span, Ghost(t)),
            span,
        }
    }

    /// The arguments that `kids` stand for.
    fn arguments(&self, kids: &Vec<usize>, Ghost(parent): Ghost<usize>) -> (arguments: Vec<
        Argument,
    >)
        requires
            are_inside(self.tokens@, kids@, parent),
        ensures
            arguments.deep_view() == collect(
                kids@,
                is_argument(self.tokens@),
                argument_at(self.input@, self.tokens@),
            ),
    {
        let mut arguments: Vec<Argument> = Vec::new();
        let ghost keep = is_argument(self.tokens@);
        let ghost make = argument_at(self.input@, self.tokens@);
        let mut k: usize = 0;
        assert(kids@.subrange(0, 0) =~= Seq::<usize>::empty());
        assert(arguments.deep_view() =~= Seq::<ArgumentView>::empty());
        while k < kids.len()
            invariant
                k <= kids@.len(),
                are_inside(self.tokens@, kids@, parent),
                keep == is_argument(self.tokens@),
                make == argument_at(self.input@, self.tokens@),
                arguments.deep_view() == collect(kids@.subrange(0, k as int), keep, make),
            decreases kids@.len() - k,
        {
            proof {
                lemma_collect_next(kids@, k as int, keep, make);
            }
            let rule = self.tokens[kids[k]].rule;
            if rule == ARGUMENT || rule == ARGUMENT_VALUE {
                let ghost before = arguments.deep_view();
                let argument = self.argument(kids[k]);
                arguments.push(argument);
                assert(arguments.deep_view() =~= before.push(argument@));
            }
            k += 1;
        }
        assert(kids@.subrange(0, k as int) =~= kids@);
        arguments
    }

    /// The properties that `kids` stand for.
    fn properties(&self, kids: &Vec<usize>, Ghost(parent): Ghost<usize>) -> (properties: Vec<
        Argument,
    >)
        requires
            are_inside(self.tokens@, kids@, parent),
        ensures
            properties.deep_view() == collect(
                kids@,
                has_rule(self.tokens@, KEY_VALUE),
                property_at(self.input@, self.tokens@),
            ),
    {
        let mut properties: Vec<Argument> = Vec::new();
        let ghost keep = has_rule(self.tokens@, KEY_VALUE);
        let ghost make = property_at(self.input@, self.tokens@);
        let mut k: usize = 0;
        assert(kids@.subrange(0, 0) =~= Seq::<usize>::empty());
        assert(properties.deep_view() =~= Seq::<ArgumentView>::empty());
        while k < kids.len()
            invariant
                k <= kids@.len(),
                are_inside(self.tokens@, kids@, parent),
                keep == has_rule(self.tokens@, KEY_VALUE),
                make == property_at(self.input@, self.tokens@),
                properties.deep_view() == collect(kids@.subrange(0, k as int), keep, make),
            decreases kids@.len() - k,
        {
            proof {
                lemma_collect_next(kids@, k as int, keep, make);
            }
            if self.tokens[kids[k]].rule == KEY_VALUE {
                let ghost before = properties.deep_view();
                let property = self.property(kids[k]);
                properties.push(property);
                assert(properties.deep_view() =~= before.push(property@));
            }
            k += 1;
        }
        assert(kids@.subrange(0, k as int) =~= kids@);
        properties
    }

    /// The directive that token `t` stands for, see [`directive_at`].
    fn directive(&self, t: usize) -> (directive: Directive)
        requires
            t < self.tokens@.len(),
        ensures
            directive@ == directive_at(self.input@, self.tokens@)(t),
    {
        let d = if self.tokens[t].rule == BLOCK_LEVEL_DIRECTIVE {
            let inner = children_of(self.tokens, t);
            match self.first(&inner, DIRECTIVE, Ghost(t)) {
                Some(inner) => inner,
                None => t,
            }
        } else {
            t
        };
        let kids = children_of(self.tokens, d);
        let arguments = match self.first(&kids, DIRECTIVE_ARGUMENTS, Ghost(d)) {
            Some(list) => {
                let listed = children_of(self.tokens, list);
                self.arguments(&listed, Ghost(list))
            },
            None => {
                let none: Vec<Argument> = Vec::new();
                assert(none.deep_view() =~= Seq::<ArgumentView>::empty());
                none
            },
        };
        Directive { name: self.name(&kids, DIRECTIVE_NAME, Ghost(d)), arguments, span: self.span(d) }
    }

    /// The directives that `kids` stand for.
    fn directives(&self, kids: &Vec<usize>, Ghost(parent): Ghost<usize>) -> (directives: Vec<
        Directive,
    >)
        requires
            are_inside(self.tokens@, kids@, parent),
        ensures
            directives.deep_view() == collect(
                kids@,
                is_directive(self.tokens@),
                directive_at(self.input@, self.tokens@),
            ),
    {
        let mut directives: Vec<Directive> = Vec::new();
        let ghost keep = is_directive(self.tokens@);
        let ghost make = directive_at(self.input@, self.tokens@);
        let mut k: usize = 0;
        assert(kids@.subrange(0, 0) =~= Seq::<usize>::empty());
        assert(directives.deep_view() =~= Seq::<DirectiveView>::empty());
        while k < kids.len()
            invariant
                k <= kids@.len(),
                are_inside(self.tokens@, kids@, parent),
                keep == is_directive(self.tokens@),
                make == directive_at(self.input@, self.tokens@),
                directives.deep_view() == collect(kids@.subrange(0, k as int), keep, make),
            decreases kids@.len() - k,
        {
            proof {
                lemma_collect_next(kids@, k as int, keep, make);
            }
            let rule = self.tokens[kids[k]].rule;
            if rule == DIRECTIVE || rule == BLOCK_LEVEL_DIRECTIVE {
                let ghost before = directives.deep_view();
                let directive = self.directive(kids[k]);
                directives.push(directive);
                assert(directives.deep_view() =~= before.push(directive@));
            }
            k += 1;
        }
        assert(kids@.subrange(0, k as int) =~= kids@);
        directives
    }

    /// The token that says how the type of a field was written, see
    /// [`type_token`].
    fn type_notation(&self, kids: &Vec<usize>, Ghost(parent): Ghost<usize>) -> (notation: Option<
        usize,
    >)
        requires
            are_inside(self.tokens@, kids@, parent),
        ensures
            notation == type_token(self.tokens@, kids@),
            notation matches Some(t) ==> t < self.tokens@.len(),
    {
        match self.first(kids, FIELD_TYPE, Ghost(parent)) {
            Some(field_type) => {
                let notations = children_of(self.tokens, field_type);
                if notations.len() > 0 {
                    Some(notations[0])
                } else {
                    None
                }
            },
            None => self.first(kids, BASE_TYPE, Ghost(parent)),
        }
    }

    /// How many values a field holds whose type was written by `rule`.
    fn arity(rule: usize) -> (arity: FieldArity)
        ensures
            arity == arity_of(rule),
    {
        if rule == LIST_TYPE || rule == LEGACY_LIST_TYPE {
            FieldArity::List
        } else if rule == OPTIONAL_TYPE {
            FieldArity::Optional
        } else {
            FieldArity::Required
        }
    }

    /// The field that token `t` stands for, see [`field_at`].
    fn field(&self, t: usize) -> (field: Field)
        requires
            t < self.tokens@.len(),
        ensures
            field@ == field_at(self.input@, self.tokens@)(t),
    {
        let kids = children_of(self.tokens, t);
        let notation = self.type_notation(&kids, Ghost(t));
        let named = match notation {
            Some(notation) => {
                let inner = children_of(self.tokens, notation);
                self.first(&inner, IDENTIFIER, Ghost(notation))
            },
            None => None,
        };
        Field {
            name: self.name(&kids, IDENTIFIER, Ghost(t)),
            field_type: match named {
                Some(name) => self.text(name),
                None => String::new(),
            },
            field_type_span: match named {
                Some(name) => self.span(name),
                None => Span::empty(),
            },
            arity: match notation {
                Some(notation) => Self::arity(self.tokens[notation].rule),
                None => FieldArity::Required,
            },
            directives: self.directives(&kids, Ghost(t)),
            span: self.span(t),
        }
    }

    /// The fields that `kids` stand for.
    fn fields(&self, kids: &Vec<usize>, Ghost(parent): Ghost<usize>) -> (fields: Vec<Field>)
        requires
            are_inside(self.tokens@, kids@, parent),
        ensures
            fields.deep_view() == collect(
                kids@,
                has_rule(self.tokens@, FIELD_DECLARATION),
                field_at(self.input@, self.tokens@),
            ),
    {
        let mut fields: Vec<Field> = Vec::new();
        let ghost keep = has_rule(self.tokens@, FIELD_DECLARATION);
        let ghost make = field_at(self.input@, self.tokens@);
        let mut k: usize = 0;
        assert(kids@.subrange(0, 0) =~= Seq::<usize>::empty());
        assert(fields.deep_view() =~= Seq::<FieldView>::empty());
        while k < kids.len()
            invariant
                k <= kids@.len(),
                are_inside(self.tokens@, kids@, parent),
                keep == has_rule(self.tokens@, FIELD_DECLARATION),
                make == field_at(self.input@, self.tokens@),
                fields.deep_view() == collect(kids@.subrange(0, k as int), keep, make),
            decreases kids@.len() - k,
        {
            proof {
                lemma_collect_next(kids@, k as int, keep, make);
            }
            if self.tokens[kids[k]].rule == FIELD_DECLARATION {
                let ghost before = fields.deep_view();
                let field = self.field(kids[k]);
                fields.push(field);
                assert(fields.deep_view() =~= before.push(field@));
            }
            k += 1;
        }
        assert(kids@.subrange(0, k as int) =~= kids@);
        fields
    }

    /// The model that token `t` stands for, see [`model_at`].
    fn model(&self, t: usize) -> (model: Model)
        requires
            t < self.tokens@.len(),
        ensures
            model@ == model_at(self.input@, self.tokens@, t),
    {
        let kids = children_of(self.tokens, t);
        Model {
            name: self.name(&kids, IDENTIFIER, Ghost(t)),
            fields: self.fields(&kids, Ghost(t)),
            directives: self.directives(&kids, Ghost(t)),
            span: self.span(t),
        }
    }

    /// The values of an enum that `kids` stand for.
    fn enum_values(&self, kids: &Vec<usize>, Ghost(parent): Ghost<usize>) -> (values: Vec<
        EnumValue,
    >)
        requires
            are_inside(self.tokens@, kids@, parent),
        ensures
            values.deep_view() == collect(
                kids@,
                has_rule(self.tokens@, ENUM_FIELD_DECLARATION),
                enum_value_at(self.input@, self.tokens@),
            ),
    {
        let mut values: Vec<EnumValue> = Vec::new();
        let ghost keep = has_rule(self.tokens@, ENUM_FIELD_DECLARATION);
        let ghost make = enum_value_at(self.input@, self.tokens@);
        let mut k: usize = 0;
        assert(kids@.subrange(0, 0) =~= Seq::<usize>::empty());
        assert(values.deep_view() =~= Seq::<EnumValueView>::empty());
        while k < kids.len()
            invariant
                k <= kids@.len(),
                are_inside(self.tokens@, kids@, parent),
                keep == has_rule(self.tokens@, ENUM_FIELD_DECLARATION),
                make == enum_value_at(self.input@, self.tokens@),
                values.deep_view() == collect(kids@.subrange(0, k as int), keep, make),
            decreases kids@.len() - k,
        {
            proof {
                lemma_collect_next(kids@, k as int, keep, make);
            }
            if self.tokens[kids[k]].rule == ENUM_FIELD_DECLARATION {
                let ghost before = values.deep_view();
                let value = EnumValue { name: self.text(kids[k]), span: self.span(kids[k]) };
                values.push(value);
                assert(values.deep_view() =~= before.push(value@));
            }
            k += 1;
        }
        assert(kids@.subrange(0, k as int) =~= kids@);
        values
    }

    /// The declaration that token `t` stands for, see [`declaration_at`].
    fn declaration(&self, t: usize) -> (declaration: Top)
        requires
            t < self.tokens@.len(),
        ensures
            declaration@ == declaration_at(self.input@, self.tokens@)(t),
    {
        let rule = self.tokens[t].rule;
        if rule == MODEL_DECLARATION {
            Top::Model(self.model(t))
        } else if rule == ENUM_DECLARATION {
            let kids = children_of(self.tokens, t);
            Top::Enum(
                Enum {
                    name: self.name(&kids, IDENTIFIER, Ghost(t)),
                    values: self.enum_values(&kids, Ghost(t)),
                    span: self.span(t),
                },
            )
        } else if rule == SOURCE_BLOCK || rule == GENERATOR_BLOCK {
            let kids = children_of(self.tokens, t);
            let block = ConfigBlock {
                name: self.name(&kids, IDENTIFIER, Ghost(t)),
                properties: self.properties(&kids, Ghost(t)),
                span: self.span(t),
            };
            if rule == SOURCE_BLOCK {
                Top::Source(block)
            } else {
                Top::Generator(block)
            }
        } else {
            Top::Type(self.field(t))
        }
    }

    /// The syntax tree that the tokens stand for, see [`tree_of`].
    pub fn tree(&self) -> (tree: Datamodel)
        ensures
            tree@ == tree_of(self.input@, self.tokens@),
    {
        let kids = children_of(self.tokens, 0);
        let mut models: Vec<Top> = Vec::new();
        let ghost keep = is_declaration(self.tokens@);
        let ghost make = declaration_at(self.input@, self.tokens@);
        let mut k: usize = 0;
        assert(kids@.subrange(0, 0) =~= Seq::<usize>::empty());
        assert(models.deep_view() =~= Seq::<TopView>::empty());
        while k < kids.len()
            invariant
                k <= kids@.len(),
                are_inside(self.tokens@, kids@, 0),
                keep == is_declaration(self.tokens@),
                make == declaration_at(self.input@, self.tokens@),
                models.deep_view() == collect(kids@.subrange(0, k as int), keep, make),
            decreases kids@.len() - k,
        {
            proof {
                lemma_collect_next(kids@, k as int, keep, make);
            }
            let rule = self.tokens[kids[k]].rule;
            if rule == MODEL_DECLARATION || rule == ENUM_DECLARATION || rule == SOURCE_BLOCK
                || rule == GENERATOR_BLOCK || rule == TYPE_DECLARATION {
                let ghost before = models.deep_view();
                let declaration = self.declaration(kids[k]);
                models.push(declaration);
                assert(models.deep_view() =~= before.push(declaration@));
            }
            k += 1;
        }
        assert(kids@.subrange(0, k as int) =~= kids@);
        Datamodel { models }
    }
}

} // verus!
