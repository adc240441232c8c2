//! Diagnostics: what went wrong, and where in the source text.

use crate::ast::Span;
use crate::text::owned;
use vstd::prelude::*;

verus! {

/// One diagnostic.
#[derive(Clone, Debug, PartialEq)]
pub enum ValidationError {
    /// The source text does not follow the grammar. `expected_tokens` names
    /// what could have stood at `span`.
    ParserError { expected_tokens: Vec<String>, span: Span },
    /// The source text uses a notation of an earlier version of the language.
    LegacyParserError { message: String, span: Span },
    /// A model breaks a rule.
    ModelValidationError { message: String, model_name: String, span: Span },
    /// A field breaks a rule.
    FieldValidationError { message: String, model_name: String, field_name: String, span: Span },
    /// A directive is unknown or its arguments are wrong.
    DirectiveValidationError { directive_name: String, message: String, span: Span },
    /// The datamodel and its syntax tree disagree. This is a fault of the
    /// caller or of this library, never of the source text.
    StateError { message: String },
}

/// What a diagnostic says, as plain values.
pub enum ErrorView {
    Parser { expected_tokens: Seq<Seq<char>>, span: Span },
    LegacyParser { message: Seq<char>, span: Span },
    Model { message: Seq<char>, model_name: Seq<char>, span: Span },
    Field { message: Seq<char>, model_name: Seq<char>, field_name: Seq<char>, span: Span },
    Directive { directive_name: Seq<char>, message: Seq<char>, span: Span },
    State { message: Seq<char> },
}

impl View for ValidationError {
    type V = ErrorView;

    open spec fn view(&self) -> ErrorView {
        match self {
            ValidationError::ParserError { expected_tokens, span } => ErrorView::Parser {
                expected_tokens: expected_tokens.deep_view(),
                span: *span,
            },
            ValidationError::LegacyParserError { message, span } => ErrorView::LegacyParser {
                message: message@,
                span: *span,
            },
            ValidationError::ModelValidationError { message, model_name, span } => ErrorView::Model {
                message: message@,
                model_name: model_name@,
                span: *span,
            },
            ValidationError::FieldValidationError {
                message,
                model_name,
                field_name,
                span,
            } => ErrorView::Field {
                message: message@,
                model_name: model_name@,
                field_name: field_name@,
                span: *span,
            },
            ValidationError::DirectiveValidationError {
                directive_name,
                message,
                span,
            } => ErrorView::Directive {
                directive_name: directive_name@,
                message: message@,
                span: *span,
            },
            ValidationError::StateError { message } => ErrorView::State { message: message@ },
        }
    }
}

impl DeepView for ValidationError {
    type V = ErrorView;

    open spec fn deep_view(&self) -> ErrorView {
        self@
    }
}

impl ValidationError {
    /// A parser error that expected one of `expected` at `span`.
    pub fn new_parser_error(expected: &Vec<&'static str>, span: Span) -> (error: ValidationError)
        ensures
            error@ == (ErrorView::Parser {
                expected_tokens: Seq::new(expected@.len(), |i: int| expected@[i]@),
                span,
            }),
    {
        let mut expected_tokens: Vec<String> = Vec::new();
        let mut i: usize = 0;
        while i < expected.len()
            invariant
                i <= expected@.len(),
                expected_tokens@.len() == i,
                forall|j: int| 0 <= j < i ==> expected_tokens@[j]@ == expected@[j]@,
            decreases expected@.len() - i,
        {
            expected_tokens.push(owned(expected[i]));
            i += 1;
        }
        assert(expected_tokens.deep_view() =~= Seq::new(expected@.len(), |i: int| expected@[i]@));
        ValidationError::ParserError { expected_tokens, span }
    }

    /// A diagnostic for a notation of an earlier version of the language.
    pub fn new_legacy_parser_error(message: &str, span: Span) -> (error: ValidationError)
        ensures
            error@ == (ErrorView::LegacyParser { message: message@, span }),
    {
        ValidationError::LegacyParserError { message: owned(message), span }
    }

    /// The diagnostic `message` about the model `model_name`.
    pub fn new_model_validation_error(message: &str, model_name: &str, span: Span) -> (error:
        ValidationError)
        ensures
            error@ == (ErrorView::Model { message: message@, model_name: model_name@, span }),
    {
        ValidationError::ModelValidationError {
            message: owned(message),
            model_name: owned(model_name),
            span,
        }
    }

    /// The diagnostic `message` about the field `field_name` of the model
    /// `model_name`.
    pub fn new_field_validation_error(
        message: &str,
        model_name: &str,
        field_name: &str,
        span: Span,
    ) -> (error: ValidationError)
        ensures
            error@ == (ErrorView::Field {
                message: message@,
                model_name: model_name@,
                field_name: field_name@,
                span,
            }),
    {
        ValidationError::FieldValidationError {
            message: owned(message),
            model_name: owned(model_name),
            field_name: owned(field_name),
            span,
        }
    }

    /// The diagnostic `message` about the directive `directive_name`.
    pub fn new_directive_validation_error(message: &str, directive_name: &str, span: Span) -> (error:
        ValidationError)
        ensures
            error@ == (ErrorView::Directive {
                directive_name: directive_name@,
                message: message@,
                span,
            }),
    {
        ValidationError::DirectiveValidationError {
            directive_name: owned(directive_name),
            message: owned(message),
            span,
        }
    }

    /// A diagnostic for a datamodel and a syntax tree that disagree.
    pub fn new_state_error(message: &str) -> (error: ValidationError)
        ensures
            error@ == (ErrorView::State { message: message@ }),
    {
        ValidationError::StateError { message: owned(message) }
    }

    /// The span the diagnostic points at. A state error points nowhere.
    pub fn span(&self) -> (span: Span)
        ensures
            span == match self@ {
                ErrorView::Parser { span, .. } => span,
                ErrorView::LegacyParser { span, .. } => span,
                ErrorView::Model { span, .. } => span,
                ErrorView::Field { span, .. } => span,
                ErrorView::Directive { span, .. } => span,
                ErrorView::State { .. } => Span { start: 0, end: 0 },
            },
    {
        match self {
            ValidationError::ParserError { span, .. } => *span,
            ValidationError::LegacyParserError { span, .. } => *span,
            ValidationError::ModelValidationError { span, .. } => *span,
            ValidationError::FieldValidationError { span, .. } => *span,
            ValidationError::DirectiveValidationError { span, .. } => *span,
            ValidationError::StateError { .. } => Span::empty(),
        }
    }
}

/// The diagnostics of one run, in the order in which they were found.
#[derive(Clone, Debug, PartialEq)]
pub struct ErrorCollection {
    pub errors: Vec<ValidationError>,
}

impl View for ErrorCollection {
    type V = Seq<ErrorView>;

    open spec fn view(&self) -> Seq<ErrorView> {
        self.errors.deep_view()
    }
}

impl ErrorCollection {
    /// The empty collection.
    pub fn new() -> (collection: ErrorCollection)
        ensures
            collection@ == Seq::<ErrorView>::empty(),
    {
        let collection = ErrorCollection { errors: Vec::new() };
        assert(collection@ =~= Seq::<ErrorView>::empty());
        collection
    }

    /// Adds `error` at the end.
    pub fn push(&mut self, error: ValidationError)
        ensures
            final(self)@ == old(self)@.push(error@),
    {
        self.errors.push(error);
        assert(self@ =~= old(self)@.push(error@));
    }

    /// Whether any diagnostic was collected.
    pub fn has_errors(&self) -> (any: bool)
        ensures
            any == (self@.len() > 0),
    {
        self.errors.len() > 0
    }
}

} // verus!
