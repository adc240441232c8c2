//! Directives: annotations that change the model or field they stand on.

pub mod embedded;
pub mod field;
pub mod model;

use crate::ast;
use crate::ast::{ArgumentView, Span, ValueView};
use crate::dml;
use crate::errors::{ErrorView, ValidationError};
use crate::first::{first_where, lemma_first_where, lemma_first_where_is};
use crate::text::{joined, owned, str_eq};
use vstd::prelude::*;

verus! {

/// The message for a value that is no string.
pub const EXPECTED_STRING: &'static str = "Expected a string value.";

/// The message for a value that is no constant.
pub const EXPECTED_CONSTANT: &'static str = "Expected a constant literal.";

/// The message for a value that is no list of names.
pub const EXPECTED_NAMES: &'static str = "Expected a list of field names.";

/// The message for a directive that is not known.
pub const UNKNOWN_DIRECTIVE: &'static str = "Encountered unknown directive.";

/// The diagnostic `message` about the directive `directive` at `span`.
pub open spec fn directive_error(directive: Seq<char>, message: Seq<char>, span: Span) -> ErrorView {
    ErrorView::Directive { directive_name: directive, message, span }
}

/// The message for an argument that is missing.
pub open spec fn missing_message(name: Seq<char>) -> Seq<char> {
    "Argument \""@ + name + "\" is missing."@
}

/// The message for an argument that is given by its name and without it.
pub open spec fn twice_message(name: Seq<char>) -> Seq<char> {
    "Argument \""@ + name + "\" is given twice."@
}

/// The first of `arguments` that is called `name`.
pub open spec fn argument_named(arguments: Seq<ArgumentView>, name: Seq<char>) -> Option<
    ArgumentView,
> {
    match first_where(arguments.len() as int, |i: int| arguments[i].name == name) {
        Some(i) => Some(arguments[i]),
        None => None,
    }
}

/// The value of the argument `name` of the directive `directive` at `span`,
/// an argument that may be given without its name.
pub open spec fn default_argument(
    arguments: Seq<ArgumentView>,
    name: Seq<char>,
    directive: Seq<char>,
    span: Span,
) -> Result<ValueView, ErrorView> {
    match argument_named(arguments, name) {
        Some(named) => match argument_named(arguments, Seq::empty()) {
            Some(_) => Err(directive_error(directive, twice_message(name), named.span)),
            None => Ok(named.value),
        },
        None => match argument_named(arguments, Seq::empty()) {
            Some(unnamed) => Ok(unnamed.value),
            None => Err(directive_error(directive, missing_message(name), span)),
        },
    }
}

/// Where a value stands in the source text.
pub open spec fn span_of(value: ValueView) -> Span {
    match value {
        ValueView::Numeric(_, span) => span,
        ValueView::Boolean(_, span) => span,
        ValueView::String(_, span) => span,
        ValueView::Constant(_, span) => span,
        ValueView::Function(_, _, span) => span,
        ValueView::Array(_, span) => span,
    }
}

/// The text of a string value.
pub open spec fn string_of(value: ValueView, directive: Seq<char>) -> Result<Seq<char>, ErrorView> {
    match value {
        ValueView::String(text, _) => Ok(text),
        _ => Err(directive_error(directive, EXPECTED_STRING@, span_of(value))),
    }
}

/// The text of a constant.
pub open spec fn constant_of(value: ValueView, directive: Seq<char>) -> Result<
    Seq<char>,
    ErrorView,
> {
    match value {
        ValueView::Constant(text, _) => Ok(text),
        _ => Err(directive_error(directive, EXPECTED_CONSTANT@, span_of(value))),
    }
}

/// Whether all of `values` are constants.
pub open spec fn all_constants(values: Seq<ValueView>) -> bool {
    forall|i: int| 0 <= i < values.len() ==> #[trigger] values[i] is Constant
}

/// The names that a value lists: the constants of a list, or the one
/// constant that the value is.
pub open spec fn names_of(value: ValueView, directive: Seq<char>) -> Result<
    Seq<Seq<char>>,
    ErrorView,
> {
    match value {
        ValueView::Constant(text, _) => Ok(seq![text]),
        ValueView::Array(items, _) => if all_constants(items) {
            Ok(Seq::new(items.len(), |i: int| items[i]->Constant_0))
        } else {
            Err(directive_error(directive, EXPECTED_NAMES@, span_of(value)))
        },
        _ => Err(directive_error(directive, EXPECTED_NAMES@, span_of(value))),
    }
}

/// The arguments of one use of a directive.
pub struct Args<'a> {
    pub arguments: &'a Vec<ast::Argument>,
    /// The span of the directive the arguments belong to.
    pub span: Span,
}

impl<'a> Args<'a> {
    /// The arguments `arguments` of a directive at `span`.
    pub fn new(arguments: &'a Vec<ast::Argument>, span: Span) -> (args: Args<'a>)
        ensures
            args.arguments == arguments,
            args.span == span,
    {
        Args { arguments, span }
    }

    /// The arguments, as plain values.
    pub open spec fn values(&self) -> Seq<ArgumentView> {
        self.arguments.deep_view()
    }

    /// The first argument called `name`.
    pub fn find(&self, name: &str) -> (found: Option<&'a ast::Argument>)
        ensures
            match found {
                Some(argument) => argument_named(self.values(), name@) == Some(argument@),
                None => argument_named(self.values(), name@) is None,
            },
    {
        let ghost values = self.values();
        let ghost named = |i: int| values[i].name == name@;
        let mut i: usize = 0;
        while i < self.arguments.len()
            invariant
                i <= self.arguments@.len(),
                values == self.values(),
                named == (|i: int| values[i].name == name@),
                forall|j: int| 0 <= j < i ==> !#[trigger] named(j),
            decreases self.arguments@.len() - i,
        {
            if str_eq(self.arguments[i].name.as_str(), name) {
                proof {
                    assert(named(i as int));
                    lemma_first_where_is(values.len() as int, named, i as int);
                }
                return Some(&self.arguments[i]);
            }
            assert(!named(i as int));
            i += 1;
        }
        proof {
            lemma_first_where(values.len() as int, named);
        }
        None
    }

    /// The value of the argument `name` of the directive `directive`, an
    /// argument that may be given without its name.
    pub fn default_arg(&self, name: &str, directive: &str) -> (result: Result<
        &'a ast::Value,
        ValidationError,
    >)
        ensures
            match result {
                Ok(value) => default_argument(self.values(), name@, directive@, self.span) == Ok::<
                    ValueView,
                    ErrorView,
                >(value@),
                Err(e) => default_argument(self.values(), name@, directive@, self.span) == Err::<
                    ValueView,
                    ErrorView,
                >(e@),
            },
    {
        let unnamed = self.find("");
        proof {
            reveal_strlit("");
            assert(""@ =~= Seq::<char>::empty());
        }
        match self.find(name) {
            Some(named) => match unnamed {
                Some(_) => Err(
                    ValidationError::new_directive_validation_error(
                        joined("Argument \"", name, "\" is given twice.").as_str(),
                        directive,
                        named.span,
                    ),
                ),
                None => Ok(&named.value),
            },
            None => match unnamed {
                Some(unnamed) => Ok(&unnamed.value),
                None => Err(
                    ValidationError::new_directive_validation_error(
                        joined("Argument \"", name, "\" is missing.").as_str(),
                        directive,
                        self.span,
                    ),
                ),
            },
        }
    }
}

/// Where a value stands in the source text.
pub fn value_span(value: &ast::Value) -> (span: Span)
    ensures
        span == span_of(value@),
{
    match value {
        ast::Value::NumericValue(_, span) => *span,
        ast::Value::BooleanValue(_, span) => *span,
        ast::Value::StringValue(_, span) => *span,
        ast::Value::ConstantValue(_, span) => *span,
        ast::Value::Function(_, _, span) => *span,
        ast::Value::Array(_, span) => *span,
    }
}

/// The text of a string value, see [`string_of`].
pub fn as_string(value: &ast::Value, directive: &str) -> (result: Result<String, ValidationError>)
    ensures
        match result {
            Ok(text) => string_of(value@, directive@) == Ok::<Seq<char>, ErrorView>(text@),
            Err(e) => string_of(value@, directive@) == Err::<Seq<char>, ErrorView>(e@),
        },
{
    match value {
        ast::Value::StringValue(text, _) => Ok(text.clone()),
        _ => Err(
            ValidationError::new_directive_validation_error(
                EXPECTED_STRING,
                directive,
                value_span(value),
            ),
        ),
    }
}

/// The text of a constant, see [`constant_of`].
pub fn as_constant(value: &ast::Value, directive: &str) -> (result: Result<
    String,
    ValidationError,
>)
    ensures
        match result {
            Ok(text) => constant_of(value@, directive@) == Ok::<Seq<char>, ErrorView>(text@),
            Err(e) => constant_of(value@, directive@) == Err::<Seq<char>, ErrorView>(e@),
        },
{
    match value {
        ast::Value::ConstantValue(text, _) => Ok(text.clone()),
        _ => Err(
            ValidationError::new_directive_validation_error(
                EXPECTED_CONSTANT,
                directive,
                value_span(value),
            ),
        ),
    }
}

/// The names that a value lists, see [`names_of`].
pub fn as_names(value: &ast::Value, directive: &str) -> (result: Result<
    Vec<String>,
    ValidationError,
>)
    ensures
        match result {
            Ok(names) => names_of(value@, directive@) == Ok::<Seq<Seq<char>>, ErrorView>(
                names.deep_view(),
            ),
            Err(e) => names_of(value@, directive@) == Err::<Seq<Seq<char>>, ErrorView>(e@),
        },
{
    match value {
        ast::Value::ConstantValue(text, _) => {
            let mut names: Vec<String> = Vec::new();
            names.push(text.clone());
            assert(names.deep_view() =~= seq![text@]);
            Ok(names)
        },
        ast::Value::Array(items, _) => {
            proof {
                ast::lemma_view_of_nested(*value);
            }
            let ghost views = items.deep_view();
            let mut names: Vec<String> = Vec::new();
            let mut i: usize = 0;
            while i < items.len()
                invariant
                    i <= items@.len(),
                    views == items.deep_view(),
                    value@ is Array,
                    value@->Array_0 == views,
                    names@.len() == i,
                    forall|j: int| 0 <= j < i ==> #[trigger] views[j] is Constant,
                    forall|j: int| 0 <= j < i ==> #[trigger] names@[j]@ == views[j]->Constant_0,
                decreases items@.len() - i,
            {
                match &items[i] {
                    ast::Value::ConstantValue(text, _) => {
                        names.push(text.clone());
                    },
                    _ => {
                        assert(!(views[i as int] is Constant));
                        return Err(
                            ValidationError::new_directive_validation_error(
                                EXPECTED_NAMES,
                                directive,
                                value_span(value),
                            ),
                        );
                    },
                }
                i += 1;
            }
            assert(names.deep_view() =~= Seq::new(views.len(), |i: int| views[i]->Constant_0));
            Ok(names)
        },
        _ => Err(
            ValidationError::new_directive_validation_error(
                EXPECTED_NAMES,
                directive,
                value_span(value),
            ),
        ),
    }
}

/// A directive, for models or fields `T`: how it is applied, and how it is
/// written again.
pub trait DirectiveValidator<T> {
    /// The name of the directive, without the leading `@`.
    fn directive_name(&self) -> &'static str;

    /// Reads the arguments and changes `obj` accordingly.
    fn validate_and_apply(&self, args: &mut Args, obj: &mut T) -> Result<(), ValidationError>;

    /// The directive that describes the state of `obj`, if `obj` carries
    /// what the directive stands for.
    fn serialize(&self, obj: &T, datamodel: &dml::Datamodel) -> Result<
        Option<ast::Directive>,
        ValidationError,
    >;
}

} // verus!
