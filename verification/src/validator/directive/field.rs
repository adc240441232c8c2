//! The directives on fields.

use crate::ast;
use crate::ast::{ArgumentView, DirectiveView, Span, ValueView};
use crate::dml;
use crate::dml::{FieldArity, FieldType, FieldTypeView, FieldView, OnDeleteStrategy, ScalarType};
use crate::errors::{ErrorView, ValidationError};
use crate::text::{
    i32_of, integer_text, integer_to_text, lemma_integer_text_is_read, owned, parse_i32, str_eq,
};
use crate::validator::directive::{
    all_constants, argument_named, as_constant, as_names, as_string, constant_of, default_argument,
    directive_error, names_of, span_of, string_of, value_span, Args, DirectiveValidator,
};
use vstd::prelude::*;
use vstd::string::*;

verus! {

/// The message for `@updatedAt` on a field of another type than `DateTime`.
pub const UPDATED_AT_TYPE: &'static str =
    "Fields that are marked with @updatedAt must be of type DateTime.";

/// The message for `@updatedAt` on a list.
pub const UPDATED_AT_LIST: &'static str = "Fields that are marked with @updatedAt can not be lists.";

/// The message for `@relation` on a field that refers to no model.
pub const NOT_A_RELATION: &'static str = "Invalid field type, not a relation.";

/// The message for a default value that the field cannot hold.
pub const DEFAULT_MISMATCH: &'static str = "The default value does not fit the type of the field.";

/// The message for a deletion policy that is not known.
pub const UNKNOWN_ON_DELETE: &'static str = "Expected CASCADE or NONE.";

/// The span of what was not read from a source text.
pub open spec fn nowhere() -> Span {
    Span { start: 0, end: 0 }
}

/// The directive `name` without arguments, as it is written.
pub open spec fn plain(name: Seq<char>) -> DirectiveView {
    DirectiveView { name, arguments: Seq::empty(), span: nowhere() }
}

/// The argument `name` with the value `value`, as it is written.
pub open spec fn written_argument(name: Seq<char>, value: ValueView) -> ArgumentView {
    ArgumentView { name, value, span: nowhere() }
}

/// The directive `name` without arguments, as it is written.
fn write_plain(name: &str) -> (directive: ast::Directive)
    ensures
        directive@ == plain(name@),
{
    let directive = ast::Directive::new(name, Vec::new());
    assert(directive@.arguments =~= Seq::empty());
    directive
}

/// The argument `name` with the value `value`, as it is written.
fn write_argument(name: &str, value: ast::Value) -> (argument: ast::Argument)
    ensures
        argument@ == written_argument(name@, value@),
{
    ast::Argument { name: owned(name), value, span: Span::empty() }
}

/// The `@id` directive: the field is the id of its model.
pub struct IdDirectiveValidator {}

/// `field` after `@id` was applied to it.
pub open spec fn id_applied(field: FieldView) -> FieldView {
    FieldView { is_id: true, ..field }
}

/// The `@id` that `field` is written with, if it is an id.
pub open spec fn id_written(field: FieldView) -> Option<DirectiveView> {
    if field.is_id {
        Some(plain("id"@))
    } else {
        None
    }
}

impl DirectiveValidator<dml::Field> for IdDirectiveValidator {
    fn directive_name(&self) -> (name: &'static str)
        ensures
            name@ == "id"@,
    {
        "id"
    }

    fn validate_and_apply(&self, args: &mut Args, obj: &mut dml::Field) -> (result: Result<
        (),
        ValidationError,
    >)
        ensures
            result is Ok,
            final(obj)@ == id_applied(old(obj)@),
            *final(args) == *old(args),
    {
        obj.is_id = true;
        Ok(())
    }

    fn serialize(&self, obj: &dml::Field, _datamodel: &dml::Datamodel) -> (result: Result<
        Option<ast::Directive>,
        ValidationError,
    >)
        ensures
            result is Ok,
            match result->Ok_0 {
                Some(directive) => id_written(obj@) == Some(directive@),
                None => id_written(obj@) is None,
            },
    {
        if obj.is_id {
            Ok(Some(write_plain("id")))
        } else {
            Ok(None)
        }
    }
}

/// The `@unique` directive: no two records have the same value.
pub struct UniqueDirectiveValidator {}

/// `field` after `@unique` was applied to it.
pub open spec fn unique_applied(field: FieldView) -> FieldView {
    FieldView { is_unique: true, ..field }
}

/// The `@unique` that `field` is written with, if it is unique.
pub open spec fn unique_written(field: FieldView) -> Option<DirectiveView> {
    if field.is_unique {
        Some(plain("unique"@))
    } else {
        None
    }
}

impl DirectiveValidator<dml::Field> for UniqueDirectiveValidator {
    fn directive_name(&self) -> (name: &'static str)
        ensures
            name@ == "unique"@,
    {
        "unique"
    }

    fn validate_and_apply(&self, args: &mut Args, obj: &mut dml::Field) -> (result: Result<
        (),
        ValidationError,
    >)
        ensures
            result is Ok,
            final(obj)@ == unique_applied(old(obj)@),
            *final(args) == *old(args),
    {
        obj.is_unique = true;
        Ok(())
    }

    fn serialize(&self, obj: &dml::Field, _datamodel: &dml::Datamodel) -> (result: Result<
        Option<ast::Directive>,
        ValidationError,
    >)
        ensures
            result is Ok,
            match result->Ok_0 {
                Some(directive) => unique_written(obj@) == Some(directive@),
                None => unique_written(obj@) is None,
            },
    {
        if obj.is_unique {
            Ok(Some(write_plain("unique")))
        } else {
            Ok(None)
        }
    }
}

/// The `@createdAt` directive: the field holds the time at which its record
/// was created.
pub struct CreatedAtDirectiveValidator {}

/// `field` after `@createdAt` was applied to it.
pub open spec fn created_at_applied(field: FieldView) -> FieldView {
    FieldView { is_created_at: true, ..field }
}

/// The `@createdAt` that `field` is written with, if it holds the time of
/// creation.
pub open spec fn created_at_written(field: FieldView) -> Option<DirectiveView> {
    if field.is_created_at {
        Some(plain("createdAt"@))
    } else {
        None
    }
}

impl DirectiveValidator<dml::Field> for CreatedAtDirectiveValidator {
    fn directive_name(&self) -> (name: &'static str)
        ensures
            name@ == "createdAt"@,
    {
        "createdAt"
    }

    fn validate_and_apply(&self, args: &mut Args, obj: &mut dml::Field) -> (result: Result<
        (),
        ValidationError,
    >)
        ensures
            result is Ok,
            final(obj)@ == created_at_applied(old(obj)@),
            *final(args) == *old(args),
    {
        obj.is_created_at = true;
        Ok(())
    }

    fn serialize(&self, obj: &dml::Field, _datamodel: &dml::Datamodel) -> (result: Result<
        Option<ast::Directive>,
        ValidationError,
    >)
        ensures
            result is Ok,
            match result->Ok_0 {
                Some(directive) => created_at_written(obj@) == Some(directive@),
                None => created_at_written(obj@) is None,
            },
    {
        if obj.is_created_at {
            Ok(Some(write_plain("createdAt")))
        } else {
            Ok(None)
        }
    }
}

/// The `@updatedAt` directive: the field holds the time at which its record
/// was last changed.
pub struct UpdatedAtDirectiveValidator {}

/// `field` after `@updatedAt` at `span` was applied to it, or why it cannot
/// be: the field is no `DateTime`, or it is a list.
pub open spec fn updated_at_applied(span: Span, field: FieldView) -> Result<FieldView, ErrorView> {
    if field.field_type != FieldTypeView::Base(ScalarType::DateTime) {
        Err(directive_error("updatedAt"@, UPDATED_AT_TYPE@, span))
    } else if field.arity == FieldArity::List {
        Err(directive_error("updatedAt"@, UPDATED_AT_LIST@, span))
    } else {
        Ok(FieldView { is_updated_at: true, ..field })
    }
}

/// The `@updatedAt` that `field` is written with, if it holds the time of
/// the last change.
pub open spec fn updated_at_written(field: FieldView) -> Option<DirectiveView> {
    if field.is_updated_at {
        Some(plain("updatedAt"@))
    } else {
        None
    }
}

impl DirectiveValidator<dml::Field> for UpdatedAtDirectiveValidator {
    fn directive_name(&self) -> (name: &'static str)
        ensures
            name@ == "updatedAt"@,
    {
        "updatedAt"
    }

    fn validate_and_apply(&self, args: &mut Args, obj: &mut dml::Field) -> (result: Result<
        (),
        ValidationError,
    >)
        ensures
            match result {
                Ok(()) => updated_at_applied(old(args).span, old(obj)@) == Ok::<
                    FieldView,
                    ErrorView,
                >(final(obj)@),
                Err(e) => updated_at_applied(old(args).span, old(obj)@) == Err::<
                    FieldView,
                    ErrorView,
                >(e@) && *final(obj) == *old(obj),
            },
            *final(args) == *old(args),
    {
        let is_date_time = match &obj.field_type {
            FieldType::Base(scalar) => *scalar == ScalarType::DateTime,
            _ => false,
        };
        if !is_date_time {
            return Err(
                ValidationError::new_directive_validation_error(
                    UPDATED_AT_TYPE,
                    "updatedAt",
                    args.span,
                ),
            );
        }
        if obj.arity == FieldArity::List {
            return Err(
                ValidationError::new_directive_validation_error(
                    UPDATED_AT_LIST,
                    "updatedAt",
                    args.span,
                ),
            );
        }
        obj.is_updated_at = true;
        Ok(())
    }

    fn serialize(&self, obj: &dml::Field, _datamodel: &dml::Datamodel) -> (result: Result<
        Option<ast::Directive>,
        ValidationError,
    >)
        ensures
            result is Ok,
            match result->Ok_0 {
                Some(directive) => updated_at_written(obj@) == Some(directive@),
                None => updated_at_written(obj@) is None,
            },
    {
        if obj.is_updated_at {
            Ok(Some(write_plain("updatedAt")))
        } else {
            Ok(None)
        }
    }
}

/// The `@map` directive on a field: the name of its column.
pub struct MapDirectiveValidator {}

/// `field` after `@map` with the arguments `args` at `span` was applied to
/// it, or why it cannot be: the argument `name` is missing or no string.
pub open spec fn map_applied(args: Seq<ArgumentView>, span: Span, field: FieldView) -> Result<
    FieldView,
    ErrorView,
> {
    match default_argument(args, "name"@, "map"@, span) {
        Ok(value) => match string_of(value, "map"@) {
            Ok(name) => Ok(FieldView { database_name: Some(name), ..field }),
            Err(e) => Err(e),
        },
        Err(e) => Err(e),
    }
}

/// The directive `map(name: "…")` for the name `name`, as it is written.
pub open spec fn map_directive(name: Seq<char>) -> DirectiveView {
    DirectiveView {
        name: "map"@,
        arguments: seq![written_argument("name"@, ValueView::String(name, nowhere()))],
        span: nowhere(),
    }
}

/// The `@map` that `field` is written with, if its column has a name of its
/// own.
pub open spec fn map_written(field: FieldView) -> Option<DirectiveView> {
    match field.database_name {
        Some(name) => Some(map_directive(name)),
        None => None,
    }
}

/// The directive `map(name: "…")` for the name `name`, as it is written.
pub fn write_map(name: &String) -> (directive: ast::Directive)
    ensures
        directive@ == map_directive(name@),
{
    let mut arguments: Vec<ast::Argument> = Vec::new();
    arguments.push(write_argument("name", ast::Value::StringValue(name.clone(), Span::empty())));
    let directive = ast::Directive::new("map", arguments);
    assert(directive@.arguments =~= map_directive(name@).arguments);
    directive
}

impl DirectiveValidator<dml::Field> for MapDirectiveValidator {
    fn directive_name(&self) -> (name: &'static str)
        ensures
            name@ == "map"@,
    {
        "map"
    }

    fn validate_and_apply(&self, args: &mut Args, obj: &mut dml::Field) -> (result: Result<
        (),
        ValidationError,
    >)
        ensures
            match result {
                Ok(()) => map_applied(old(args).values(), old(args).span, old(obj)@) == Ok::<
                    FieldView,
                    ErrorView,
                >(final(obj)@),
                Err(e) => map_applied(old(args).values(), old(args).span, old(obj)@) == Err::<
                    FieldView,
                    ErrorView,
                >(e@) && *final(obj) == *old(obj),
            },
            *final(args) == *old(args),
    {
        let value = match args.default_arg("name", "map") {
            Ok(value) => value,
            Err(e) => {
                return Err(e);
            },
        };
        let name = match as_string(value, "map") {
            Ok(name) => name,
            Err(e) => {
                return Err(e);
            },
        };
        obj.database_name = Some(name);
        Ok(())
    }

    fn serialize(&self, obj: &dml::Field, _datamodel: &dml::Datamodel) -> (result: Result<
        Option<ast::Directive>,
        ValidationError,
    >)
        ensures
            result is Ok,
            match result->Ok_0 {
                Some(directive) => map_written(obj@) == Some(directive@),
                None => map_written(obj@) is None,
            },
    {
        match &obj.database_name {
            Some(name) => Ok(Some(write_map(name))),
            None => Ok(None),
        }
    }
}

/// The `@default` directive: the value of the field in a record that is
/// created without one.
pub struct DefaultDirectiveValidator {}

/// The type of what a call of `name` gives, if `name` is known: `cuid` and
/// `uuid` give a `String`, `now` a `DateTime`.
pub open spec fn result_of_call(name: Seq<char>) -> Option<ScalarType> {
    if name == "cuid"@ || name == "uuid"@ {
        Some(ScalarType::String)
    } else if name == "now"@ {
        Some(ScalarType::DateTime)
    } else {
        None
    }
}

/// The default value that `value` stands for on a field of type
/// `field_type`, if it stands for one: a call without arguments that
/// gives the type of the field, a literal of that type, and for an enum a
/// constant.
pub open spec fn default_for(field_type: FieldTypeView, value: ValueView) -> Option<
    dml::ValueView,
> {
    match field_type {
        FieldTypeView::Base(scalar) => match value {
            ValueView::Function(name, args, _) => if args.len() == 0 && result_of_call(name)
                == Some(scalar) {
                Some(dml::ValueView::Expression(name, scalar, Seq::empty()))
            } else {
                None
            },
            ValueView::Numeric(text, _) => if scalar == ScalarType::Int {
                match i32_of(text) {
                    Some(number) => Some(dml::ValueView::Int(number)),
                    None => None,
                }
            } else if scalar == ScalarType::Float {
                Some(dml::ValueView::Float(text))
            } else if scalar == ScalarType::Decimal {
                Some(dml::ValueView::Decimal(text))
            } else {
                None
            },
            ValueView::Boolean(text, _) => if scalar == ScalarType::Boolean && text == "true"@ {
                Some(dml::ValueView::Boolean(true))
            } else if scalar == ScalarType::Boolean && text == "false"@ {
                Some(dml::ValueView::Boolean(false))
            } else {
                None
            },
            ValueView::String(text, _) => if scalar == ScalarType::String {
                Some(dml::ValueView::String(text))
            } else if scalar == ScalarType::DateTime {
                Some(dml::ValueView::DateTime(text))
            } else {
                None
            },
            _ => None,
        },
        FieldTypeView::Enum(_) => match value {
            ValueView::Constant(text, _) => Some(dml::ValueView::ConstantLiteral(text)),
            _ => None,
        },
        FieldTypeView::Relation(_) => None,
    }
}

/// Whether a default value is a call of `now`.
pub open spec fn is_now(value: dml::ValueView) -> bool {
    value matches dml::ValueView::Expression(name, _, _) && name == "now"@
}

/// `field` after `@default` with the arguments `args` at `span` was applied
/// to it, or why it cannot be: the argument `value` is missing, or it does
/// not fit the type of the field. A field whose default is a call of `now`
/// holds the time of creation.
pub open spec fn default_applied(args: Seq<ArgumentView>, span: Span, field: FieldView) -> Result<
    FieldView,
    ErrorView,
> {
    match default_argument(args, "value"@, "default"@, span) {
        Ok(value) => match default_for(field.field_type, value) {
            Some(default) => Ok(
                FieldView {
                    default_value: Some(default),
                    is_created_at: field.is_created_at || is_now(default),
                    ..field
                },
            ),
            None => Err(directive_error("default"@, DEFAULT_MISMATCH@, span_of(value))),
        },
        Err(e) => Err(e),
    }
}

/// The default value that `value` stands for on a field of type
/// `field_type`, see [`default_for`].
pub fn to_default(field_type: &FieldType, value: &ast::Value) -> (default: Option<dml::Value>)
    ensures
        default.deep_view() == default_for(field_type@, value@),
{
    match field_type {
        FieldType::Base(scalar) => match value {
            ast::Value::Function(name, args, _) => {
                proof {
                    ast::lemma_view_of_nested(*value);
                }
                let result_type = if str_eq(name.as_str(), "cuid") || str_eq(name.as_str(), "uuid") {
                    Some(ScalarType::String)
                } else if str_eq(name.as_str(), "now") {
                    Some(ScalarType::DateTime)
                } else {
                    None
                };
                let fits = match result_type {
                    Some(returned) => returned == *scalar,
                    None => false,
                };
                if args.len() == 0 && fits {
                    let none: Vec<dml::Value> = Vec::new();
                    let default = dml::Value::Expression(name.clone(), *scalar, none);
                    proof {
                        dml::lemma_view_of_expression(default);
                        assert(none.deep_view() =~= Seq::<dml::ValueView>::empty());
                    }
                    Some(default)
                } else {
                    None
                }
            },
            ast::Value::NumericValue(text, _) => {
                if *scalar == ScalarType::Int {
                    match parse_i32(text.as_str()) {
                        Some(number) => Some(dml::Value::Int(number)),
                        None => None,
                    }
                } else if *scalar == ScalarType::Float {
                    Some(dml::Value::Float(text.clone()))
                } else if *scalar == ScalarType::Decimal {
                    Some(dml::Value::Decimal(text.clone()))
                } else {
                    None
                }
            },
            ast::Value::BooleanValue(text, _) => {
                if *scalar == ScalarType::Boolean && str_eq(text.as_str(), "true") {
                    Some(dml::Value::Boolean(true))
                } else if *scalar == ScalarType::Boolean && str_eq(text.as_str(), "false") {
                    Some(dml::Value::Boolean(false))
                } else {
                    None
                }
            },
            ast::Value::StringValue(text, _) => {
                if *scalar == ScalarType::String {
                    Some(dml::Value::String(text.clone()))
                } else if *scalar == ScalarType::DateTime {
                    Some(dml::Value::DateTime(text.clone()))
                } else {
                    None
                }
            },
            _ => None,
        },
        FieldType::Enum(_) => match value {
            ast::Value::ConstantValue(text, _) => Some(dml::Value::ConstantLiteral(text.clone())),
            _ => None,
        },
        FieldType::Relation(_) => None,
    }
}

/// Whether a default value is a call of `now`.
fn default_is_now(value: &dml::Value) -> (is: bool)
    ensures
        is == is_now(value@),
{
    match value {
        dml::Value::Expression(name, _, _) => str_eq(name.as_str(), "now"),
        _ => false,
    }
}

/// The value at index `i` of `values` as it is written, for the values
/// inside the value `outer`.
pub open spec fn written_inside(outer: dml::ValueView, values: Seq<dml::ValueView>) -> spec_fn(
    int,
) -> ValueView
    decreases outer, 0nat,
{
    |i: int|
        if 0 <= i < values.len() && decreases_to!(outer => values[i]) {
            value_written(values[i])
        } else {
            ValueView::Constant(Seq::empty(), nowhere())
        }
}

/// A default value as it is written: a number by its digits, a truth value
/// as `true` or `false`, a text or a date as a string, a constant by its
/// name, and a call by its name and its arguments.
pub open spec fn value_written(value: dml::ValueView) -> ValueView
    decreases value, 1nat,
{
    match value {
        dml::ValueView::Int(number) => ValueView::Numeric(integer_text(number as int), nowhere()),
        dml::ValueView::Float(text) => ValueView::Numeric(text, nowhere()),
        dml::ValueView::Decimal(text) => ValueView::Numeric(text, nowhere()),
        dml::ValueView::Boolean(truth) => ValueView::Boolean(
            if truth {
                "true"@
            } else {
                "false"@
            },
            nowhere(),
        ),
        dml::ValueView::String(text) => ValueView::String(text, nowhere()),
        dml::ValueView::DateTime(text) => ValueView::String(text, nowhere()),
        dml::ValueView::ConstantLiteral(text) => ValueView::Constant(text, nowhere()),
        dml::ValueView::Expression(name, _, args) => ValueView::Function(
            name,
            Seq::new(args.len(), written_inside(value, args)),
            nowhere(),
        ),
    }
}

/// The directive `default(…)` for the value `value`, as it is written.
pub open spec fn default_directive(value: dml::ValueView) -> DirectiveView {
    DirectiveView {
        name: "default"@,
        arguments: seq![written_argument(Seq::empty(), value_written(value))],
        span: nowhere(),
    }
}

/// The `@default` that `field` is written with, if it has a default value.
pub open spec fn default_written(field: FieldView) -> Option<DirectiveView> {
    match field.default_value {
        Some(value) => Some(default_directive(value)),
        None => None,
    }
}

/// The values `values`, each as it is written.
fn write_values(values: &Vec<dml::Value>, Ghost(outer): Ghost<dml::Value>) -> (written: Vec<
    ast::Value,
>)
    requires
        outer matches dml::Value::Expression(_, _, args) && args == *values,
    ensures
        written.deep_view() == Seq::new(
            values@.len(),
            written_inside(outer@, values.deep_view()),
        ),
    decreases outer, 0nat,
{
    let mut written: Vec<ast::Value> = Vec::new();
    let mut i: usize = 0;
    proof {
        dml::lemma_view_of_expression(outer);
    }
    while i < values.len()
        invariant
            i <= values@.len(),
            outer matches dml::Value::Expression(_, _, args) && args == *values,
            outer@ is Expression,
            outer@->Expression_2 == values.deep_view(),
            written@.len() == i,
            forall|j: int|
                0 <= j < i ==> #[trigger] written@[j]@ == written_inside(
                    outer@,
                    values.deep_view(),
                )(j),
        decreases values@.len() - i,
    {
        let value = write_value(&values[i]);
        proof {
            assert(values.deep_view()[i as int] == values@[i as int]@);
            assert(decreases_to!(outer@ => outer@->Expression_2[i as int]));
        }
        written.push(value);
        i += 1;
    }
    assert(written.deep_view() =~= Seq::new(
        values@.len(),
        written_inside(outer@, values.deep_view()),
    ));
    written
}

/// A default value as it is written, see [`value_written`].
pub fn write_value(value: &dml::Value) -> (written: ast::Value)
    ensures
        written@ == value_written(value@),
    decreases value, 1nat,
{
    match value {
        dml::Value::Int(number) => ast::Value::NumericValue(
            integer_to_text(*number),
            Span::empty(),
        ),
        dml::Value::Float(text) => ast::Value::NumericValue(text.clone(), Span::empty()),
        dml::Value::Decimal(text) => ast::Value::NumericValue(text.clone(), Span::empty()),
        dml::Value::Boolean(truth) => ast::Value::BooleanValue(
            if *truth {
                owned("true")
            } else {
                owned("false")
            },
            Span::empty(),
        ),
        dml::Value::String(text) => ast::Value::StringValue(text.clone(), Span::empty()),
        dml::Value::DateTime(text) => ast::Value::StringValue(text.clone(), Span::empty()),
        dml::Value::ConstantLiteral(text) => ast::Value::ConstantValue(
            text.clone(),
            Span::empty(),
        ),
        dml::Value::Expression(name, _, args) => {
            let written = write_values(args, Ghost(*value));
            let call = ast::Value::Function(name.clone(), written, Span::empty());
            proof {
                dml::lemma_view_of_expression(*value);
                ast::lemma_view_of_nested(call);
            }
            call
        },
    }
}

impl DirectiveValidator<dml::Field> for DefaultDirectiveValidator {
    fn directive_name(&self) -> (name: &'static str)
        ensures
            name@ == "default"@,
    {
        "default"
    }

    fn validate_and_apply(&self, args: &mut Args, obj: &mut dml::Field) -> (result: Result<
        (),
        ValidationError,
    >)
        ensures
            match result {
                Ok(()) => default_applied(old(args).values(), old(args).span, old(obj)@) == Ok::<
                    FieldView,
                    ErrorView,
                >(final(obj)@),
                Err(e) => default_applied(old(args).values(), old(args).span, old(obj)@) == Err::<
                    FieldView,
                    ErrorView,
                >(e@) && *final(obj) == *old(obj),
            },
            *final(args) == *old(args),
    {
        let value = match args.default_arg("value", "default") {
            Ok(value) => value,
            Err(e) => {
                return Err(e);
            },
        };
        match to_default(&obj.field_type, value) {
            Some(default) => {
                if default_is_now(&default) {
                    obj.is_created_at = true;
                }
                obj.default_value = Some(default);
                Ok(())
            },
            None => Err(
                ValidationError::new_directive_validation_error(
                    DEFAULT_MISMATCH,
                    "default",
                    value_span(value),
                ),
            ),
        }
    }

    fn serialize(&self, obj: &dml::Field, _datamodel: &dml::Datamodel) -> (result: Result<
        Option<ast::Directive>,
        ValidationError,
    >)
        ensures
            result is Ok,
            match result->Ok_0 {
                Some(directive) => default_written(obj@) == Some(directive@),
                None => default_written(obj@) is None,
            },
    {
        match &obj.default_value {
            Some(value) => {
                let mut arguments: Vec<ast::Argument> = Vec::new();
                arguments.push(write_argument("", write_value(value)));
                let directive = ast::Directive::new("default", arguments);
                proof {
                    reveal_strlit("");
                    assert(""@ =~= Seq::<char>::empty());
                    assert(directive@.arguments =~= default_directive(value@).arguments);
                }
                Ok(Some(directive))
            },
            None => Ok(None),
        }
    }
}

/// The `@relation` directive: the name of the relation that the field is an
/// endpoint of, the fields of the other model that it refers to, and what
/// happens to the other side when a record is deleted.
pub struct RelationDirectiveValidator {}

/// The deletion policy that `value` names: `CASCADE` or `NONE`.
pub open spec fn on_delete_of(value: ValueView) -> Result<OnDeleteStrategy, ErrorView> {
    match constant_of(value, "relation"@) {
        Ok(name) => if name == "CASCADE"@ {
            Ok(OnDeleteStrategy::Cascade)
        } else if name == "NONE"@ {
            Ok(OnDeleteStrategy::NoAction)
        } else {
            Err(directive_error("relation"@, UNKNOWN_ON_DELETE@, span_of(value)))
        },
        Err(e) => Err(e),
    }
}

/// The name that the arguments `args` give to a relation called `name` so
/// far: the argument `name`, which may be given without its name; where it
/// is not given, or given twice, the relation keeps its name.
pub open spec fn relation_name_from(args: Seq<ArgumentView>, span: Span, name: Seq<char>) -> Result<
    Seq<char>,
    ErrorView,
> {
    match default_argument(args, "name"@, "relation"@, span) {
        Ok(value) => string_of(value, "relation"@),
        Err(_) => Ok(name),
    }
}

/// The fields that the arguments `args` let an endpoint refer to that
/// refers to `to_fields` so far: the argument `references`.
pub open spec fn references_from(args: Seq<ArgumentView>, to_fields: Seq<Seq<char>>) -> Result<
    Seq<Seq<char>>,
    ErrorView,
> {
    match argument_named(args, "references"@) {
        Some(argument) => names_of(argument.value, "relation"@),
        None => Ok(to_fields),
    }
}

/// The deletion policy that the arguments `args` give to an endpoint whose
/// policy is `on_delete` so far: the argument `onDelete`.
pub open spec fn on_delete_from(args: Seq<ArgumentView>, on_delete: OnDeleteStrategy) -> Result<
    OnDeleteStrategy,
    ErrorView,
> {
    match argument_named(args, "onDelete"@) {
        Some(argument) => on_delete_of(argument.value),
        None => Ok(on_delete),
    }
}

/// `field` after `@relation` with the arguments `args` at `span` was
/// applied to it, or why it cannot be: the field refers to no model, or an
/// argument is not of the kind it has to be.
pub open spec fn relation_applied(args: Seq<ArgumentView>, span: Span, field: FieldView) -> Result<
    FieldView,
    ErrorView,
> {
    match field.field_type {
        FieldTypeView::Relation(info) => match relation_name_from(args, span, info.name) {
            Ok(name) => match references_from(args, info.to_fields) {
                Ok(to_fields) => match on_delete_from(args, info.on_delete) {
                    Ok(on_delete) => Ok(
                        FieldView {
                            field_type: FieldTypeView::Relation(
                                dml::RelationInfoView { to: info.to, to_fields, name, on_delete },
                            ),
                            ..field
                        },
                    ),
                    Err(e) => Err(e),
                },
                Err(e) => Err(e),
            },
            Err(e) => Err(e),
        },
        _ => Err(directive_error("relation"@, NOT_A_RELATION@, span)),
    }
}

/// The names `names` as a list of constants, as it is written.
pub open spec fn names_written(names: Seq<Seq<char>>) -> ValueView {
    ValueView::Array(
        Seq::new(names.len(), |i: int| ValueView::Constant(names[i], nowhere())),
        nowhere(),
    )
}

/// The arguments that an endpoint is written with: its name if it has one,
/// the fields it refers to if there are any, and its deletion policy if
/// that is to cascade.
pub open spec fn relation_arguments(info: dml::RelationInfoView) -> Seq<ArgumentView> {
    let name = if info.name.len() > 0 {
        seq![written_argument("name"@, ValueView::String(info.name, nowhere()))]
    } else {
        Seq::empty()
    };
    let references = if info.to_fields.len() > 0 {
        seq![written_argument("references"@, names_written(info.to_fields))]
    } else {
        Seq::empty()
    };
    let on_delete = if info.on_delete == OnDeleteStrategy::Cascade {
        seq![written_argument("onDelete"@, ValueView::Constant("CASCADE"@, nowhere()))]
    } else {
        Seq::empty()
    };
    name + references + on_delete
}

/// The `@relation` that `field` is written with, if it is an endpoint of a
/// relation of which there is anything to write.
pub open spec fn relation_written(field: FieldView) -> Option<DirectiveView> {
    match field.field_type {
        FieldTypeView::Relation(info) => if relation_arguments(info).len() > 0 {
            Some(
                DirectiveView {
                    name: "relation"@,
                    arguments: relation_arguments(info),
                    span: nowhere(),
                },
            )
        } else {
            None
        },
        _ => None,
    }
}

/// The deletion policy that `value` names, see [`on_delete_of`].
fn to_on_delete(value: &ast::Value) -> (result: Result<OnDeleteStrategy, ValidationError>)
    ensures
        match result {
            Ok(policy) => on_delete_of(value@) == Ok::<OnDeleteStrategy, ErrorView>(policy),
            Err(e) => on_delete_of(value@) == Err::<OnDeleteStrategy, ErrorView>(e@),
        },
{
    match as_constant(value, "relation") {
        Ok(name) => {
            if str_eq(name.as_str(), "CASCADE") {
                Ok(OnDeleteStrategy::Cascade)
            } else if str_eq(name.as_str(), "NONE") {
                Ok(OnDeleteStrategy::NoAction)
            } else {
                Err(
                    ValidationError::new_directive_validation_error(
                        UNKNOWN_ON_DELETE,
                        "relation",
                        value_span(value),
                    ),
                )
            }
        },
        Err(e) => Err(e),
    }
}

/// A copy of `names`.
pub fn copy_names(names: &Vec<String>) -> (copy: Vec<String>)
    ensures
        copy.deep_view() == names.deep_view(),
{
    let mut copy: Vec<String> = Vec::new();
    let mut i: usize = 0;
    while i < names.len()
        invariant
            i <= names@.len(),
            copy@.len() == i,
            forall|j: int| 0 <= j < i ==> #[trigger] copy@[j]@ == names@[j]@,
        decreases names@.len() - i,
    {
        copy.push(names[i].clone());
        i += 1;
    }
    assert(copy.deep_view() =~= names.deep_view());
    copy
}

/// The names `names` as a list of constants, see [`names_written`].
pub fn write_names(names: &Vec<String>) -> (written: ast::Value)
    ensures
        written@ == names_written(names.deep_view()),
{
    let mut items: Vec<ast::Value> = Vec::new();
    let mut i: usize = 0;
    while i < names.len()
        invariant
            i <= names@.len(),
            items@.len() == i,
            forall|j: int|
                0 <= j < i ==> #[trigger] items@[j]@ == ValueView::Constant(names@[j]@, nowhere()),
        decreases names@.len() - i,
    {
        items.push(ast::Value::ConstantValue(names[i].clone(), Span::empty()));
        i += 1;
    }
    let written = ast::Value::Array(items, Span::empty());
    proof {
        ast::lemma_view_of_nested(written);
        assert(items.deep_view() =~= names_written(names.deep_view())->Array_0);
    }
    written
}

impl DirectiveValidator<dml::Field> for RelationDirectiveValidator {
    fn directive_name(&self) -> (name: &'static str)
        ensures
            name@ == "relation"@,
    {
        "relation"
    }

    fn validate_and_apply(&self, args: &mut Args, obj: &mut dml::Field) -> (result: Result<
        (),
        ValidationError,
    >)
        ensures
            match result {
                Ok(()) => relation_applied(old(args).values(), old(args).span, old(obj)@) == Ok::<
                    FieldView,
                    ErrorView,
                >(final(obj)@),
                Err(e) => relation_applied(old(args).values(), old(args).span, old(obj)@)
                    == Err::<FieldView, ErrorView>(e@) && *final(obj) == *old(obj),
            },
            *final(args) == *old(args),
    {
        let info = match &obj.field_type {
            FieldType::Relation(info) => info,
            _ => {
                return Err(
                    ValidationError::new_directive_validation_error(
                        NOT_A_RELATION,
                        "relation",
                        args.span,
                    ),
                );
            },
        };
        let name = match args.default_arg("name", "relation") {
            Ok(value) => match as_string(value, "relation") {
                Ok(name) => name,
                Err(e) => {
                    return Err(e);
                },
            },
            Err(_) => info.name.clone(),
        };
        let to_fields = match args.find("references") {
            Some(argument) => match as_names(&argument.value, "relation") {
                Ok(names) => names,
                Err(e) => {
                    return Err(e);
                },
            },
            None => copy_names(&info.to_fields),
        };
        let on_delete = match args.find("onDelete") {
            Some(argument) => match to_on_delete(&argument.value) {
                Ok(policy) => policy,
                Err(e) => {
                    return Err(e);
                },
            },
            None => info.on_delete,
        };
        let to = info.to.clone();
        obj.field_type = FieldType::Relation(dml::RelationInfo { to, to_fields, name, on_delete });
        Ok(())
    }

    fn serialize(&self, obj: &dml::Field, _datamodel: &dml::Datamodel) -> (result: Result<
        Option<ast::Directive>,
        ValidationError,
    >)
        ensures
            result is Ok,
            match result->Ok_0 {
                Some(directive) => relation_written(obj@) == Some(directive@),
                None => relation_written(obj@) is None,
            },
    {
        match &obj.field_type {
            FieldType::Relation(info) => {
                let mut arguments: Vec<ast::Argument> = Vec::new();
                assert(arguments.deep_view() =~= Seq::<ArgumentView>::empty());
                if info.name.as_str().unicode_len() > 0 {
                    let ghost before = arguments.deep_view();
                    let argument = write_argument(
                        "name",
                        ast::Value::StringValue(info.name.clone(), Span::empty()),
                    );
                    arguments.push(argument);
                    assert(arguments.deep_view() =~= before.push(argument@));
                }
                if info.to_fields.len() > 0 {
                    let ghost before = arguments.deep_view();
                    let argument = write_argument("references", write_names(&info.to_fields));
                    arguments.push(argument);
                    assert(arguments.deep_view() =~= before.push(argument@));
                }
                if info.on_delete == OnDeleteStrategy::Cascade {
                    let ghost before = arguments.deep_view();
                    let argument = write_argument(
                        "onDelete",
                        ast::Value::ConstantValue(owned("CASCADE"), Span::empty()),
                    );
                    arguments.push(argument);
                    assert(arguments.deep_view() =~= before.push(argument@));
                }
                assert(arguments.deep_view() =~= relation_arguments(info@));
                if arguments.len() > 0 {
                    Ok(Some(ast::Directive { name: owned("relation"), arguments, span: Span::empty() }))
                } else {
                    Ok(None)
                }
            },
            _ => Ok(None),
        }
    }
}

/// The names of the arguments that directives are written with differ from
/// one another, and none is empty.
pub proof fn lemma_argument_names_differ()
    ensures
        "name"@.len() == 4,
        "value"@.len() == 5,
        "references"@.len() == 10,
        "onDelete"@.len() == 8,
        "true"@.len() == 4,
        "false"@.len() == 5,
        "CASCADE"@.len() == 7,
        "NONE"@.len() == 4,
        "CASCADE"@ != "NONE"@,
{
    reveal_strlit("name");
    reveal_strlit("value");
    reveal_strlit("references");
    reveal_strlit("onDelete");
    reveal_strlit("true");
    reveal_strlit("false");
    reveal_strlit("CASCADE");
    reveal_strlit("NONE");
}

/// The argument of a list of one argument that is called like it is that
/// argument, and no argument of the list has another name.
proof fn lemma_only_argument(argument: ArgumentView, name: Seq<char>)
    ensures
        argument_named(seq![argument], name) == if argument.name == name {
            Some(argument)
        } else {
            None
        },
{
    let arguments = seq![argument];
    let named = |i: int| arguments[i].name == name;
    if argument.name == name {
        assert(named(0));
        crate::first::lemma_first_where_is(1, named, 0);
    } else {
        crate::first::lemma_first_where(1, named);
    }
}

/// The argument of a directive `map` that is written is read as the name
/// that was written.
pub proof fn lemma_map_argument_is_read(name: Seq<char>, span: Span)
    ensures
        default_argument(map_directive(name).arguments, "name"@, "map"@, span) == Ok::<
            ValueView,
            ErrorView,
        >(ValueView::String(name, nowhere())),
{
    lemma_argument_names_differ();
    let argument = written_argument("name"@, ValueView::String(name, nowhere()));
    lemma_only_argument(argument, "name"@);
    lemma_only_argument(argument, Seq::empty());
}

/// A default value that is written is read as that value again, on a field
/// of the type on which it was read first.
pub proof fn lemma_default_is_read_back(field_type: FieldTypeView, value: ValueView)
    requires
        default_for(field_type, value) is Some,
    ensures
        default_for(field_type, value_written(default_for(field_type, value)->0)) == default_for(
            field_type,
            value,
        ),
{
    lemma_argument_names_differ();
    let default = default_for(field_type, value)->0;
    match default {
        dml::ValueView::Int(number) => {
            lemma_integer_text_is_read(number);
        },
        dml::ValueView::Expression(name, scalar, args) => {
            assert(args =~= Seq::empty());
            assert(value_written(default)->Function_1 =~= Seq::<ValueView>::empty());
        },
        _ => {},
    }
}

/// A directive `@default` that is written applies as the one that gave the
/// field its default value.
pub proof fn lemma_default_round_trip(
    args: Seq<ArgumentView>,
    span: Span,
    written_span: Span,
    field: FieldView,
)
    requires
        default_applied(args, span, field) is Ok,
    ensures
        default_written(default_applied(args, span, field)->Ok_0) matches Some(written)
            && default_applied(written.arguments, written_span, field) == default_applied(
            args,
            span,
            field,
        ),
{
    lemma_argument_names_differ();
    let after = default_applied(args, span, field)->Ok_0;
    let value = default_argument(args, "value"@, "default"@, span)->Ok_0;
    let default = default_for(field.field_type, value)->0;
    lemma_default_is_read_back(field.field_type, value);
    let argument = written_argument(Seq::empty(), value_written(default));
    lemma_only_argument(argument, "value"@);
    lemma_only_argument(argument, Seq::empty());
}

/// Whether a field is no endpoint of a relation of which anything was said
/// yet: it has no name, refers to no fields, and does nothing on deletion.
pub open spec fn is_bare_endpoint(field: FieldView) -> bool {
    field.field_type matches FieldTypeView::Relation(info) ==> info.name.len() == 0
        && info.to_fields.len() == 0 && info.on_delete == OnDeleteStrategy::NoAction
}

/// The first argument called `name` of the arguments that an endpoint is
/// written with.
proof fn lemma_relation_argument(info: dml::RelationInfoView, name: Seq<char>)
    ensures
        argument_named(relation_arguments(info), name) == if name == "name"@ && info.name.len()
            > 0 {
            Some(written_argument("name"@, ValueView::String(info.name, nowhere())))
        } else if name == "references"@ && info.to_fields.len() > 0 {
            Some(written_argument("references"@, names_written(info.to_fields)))
        } else if name == "onDelete"@ && info.on_delete == OnDeleteStrategy::Cascade {
            Some(written_argument("onDelete"@, ValueView::Constant("CASCADE"@, nowhere())))
        } else {
            None
        },
{
    lemma_argument_names_differ();
    let arguments = relation_arguments(info);
    let named = |i: int| arguments[i].name == name;
    crate::first::lemma_first_where(arguments.len() as int, named);
    let first = if info.name.len() > 0 {
        1int
    } else {
        0int
    };
    let second = if info.to_fields.len() > 0 {
        first + 1
    } else {
        first
    };
    if name == "name"@ && info.name.len() > 0 {
        assert(named(0));
        crate::first::lemma_first_where_is(arguments.len() as int, named, 0);
    } else if name == "references"@ && info.to_fields.len() > 0 {
        assert(named(first));
        crate::first::lemma_first_where_is(arguments.len() as int, named, first);
    } else if name == "onDelete"@ && info.on_delete == OnDeleteStrategy::Cascade {
        assert(named(second));
        crate::first::lemma_first_where_is(arguments.len() as int, named, second);
    } else {
        assert forall|i: int| 0 <= i < arguments.len() implies !#[trigger] named(i) by {}
    }
}

/// A directive `@relation` that is written applies as the one that made the
/// field, a field of which nothing was said before, the endpoint that it
/// is. Where nothing is written, nothing was said.
pub proof fn lemma_relation_round_trip(args: Seq<ArgumentView>, span: Span, field: FieldView)
    requires
        relation_applied(args, span, field) is Ok,
        is_bare_endpoint(field),
    ensures
        match relation_written(relation_applied(args, span, field)->Ok_0) {
            Some(written) => relation_applied(written.arguments, span, field) == relation_applied(
                args,
                span,
                field,
            ),
            None => relation_applied(args, span, field) == Ok::<FieldView, ErrorView>(field),
        },
{
    lemma_argument_names_differ();
    let after = relation_applied(args, span, field)->Ok_0;
    let info = after.field_type->Relation_0;
    let bare = field.field_type->Relation_0;
    let written = relation_arguments(info);
    lemma_relation_argument(info, "name"@);
    lemma_relation_argument(info, Seq::empty());
    lemma_relation_argument(info, "references"@);
    lemma_relation_argument(info, "onDelete"@);
    assert(bare.name =~= Seq::empty());
    assert(bare.to_fields =~= Seq::empty());
    if info.name.len() == 0 {
        assert(info.name =~= bare.name);
    }
    if info.to_fields.len() == 0 {
        assert(info.to_fields =~= bare.to_fields);
    } else {
        let items = names_written(info.to_fields)->Array_0;
        assert(all_constants(items));
        assert(Seq::new(items.len(), |i: int| items[i]->Constant_0) =~= info.to_fields);
    }
}

} // verus!
