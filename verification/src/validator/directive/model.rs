//! The directives on models, but for `@@embedded`.

use crate::ast;
use crate::ast::{ArgumentView, DirectiveView, Span};
use crate::dml;
use crate::dml::ModelView;
use crate::errors::{ErrorView, ValidationError};
use crate::validator::directive::field::{
    lemma_argument_names_differ, map_directive, names_written, nowhere, write_names,
    written_argument,
};
use crate::validator::directive::field::{copy_names, write_map};
use crate::validator::directive::{
    all_constants, argument_named, as_names, as_string, default_argument, directive_error,
    names_of, span_of, string_of, value_span, Args, DirectiveValidator,
};
use vstd::prelude::*;

verus! {

/// The `@@map` directive on a model: the name of its table.
pub struct ModelMapDirectiveValidator {}

/// `model` after `@@map` with the arguments `args` at `span` was applied to
/// it, or why it cannot be: the argument `name` is missing or no string.
pub open spec fn model_map_applied(args: Seq<ArgumentView>, span: Span, model: ModelView) -> Result<
    ModelView,
    ErrorView,
> {
    match default_argument(args, "name"@, "map"@, span) {
        Ok(value) => match string_of(value, "map"@) {
            Ok(name) => Ok(ModelView { database_name: Some(name), ..model }),
            Err(e) => Err(e),
        },
        Err(e) => Err(e),
    }
}

/// The `@@map` that `model` is written with, if its table has a name of its
/// own.
pub open spec fn model_map_written(model: ModelView) -> Option<DirectiveView> {
    match model.database_name {
        Some(name) => Some(map_directive(name)),
        None => None,
    }
}

impl DirectiveValidator<dml::Model> for ModelMapDirectiveValidator {
    fn directive_name(&self) -> (name: &'static str)
        ensures
            name@ == "map"@,
    {
        "map"
    }

    fn validate_and_apply(&self, args: &mut Args, obj: &mut dml::Model) -> (result: Result<
        (),
        ValidationError,
    >)
        ensures
            match result {
                Ok(()) => model_map_applied(old(args).values(), old(args).span, old(obj)@) == Ok::<
                    ModelView,
                    ErrorView,
                >(final(obj)@),
                Err(e) => model_map_applied(old(args).values(), old(args).span, old(obj)@)
                    == Err::<ModelView, ErrorView>(e@) && *final(obj) == *old(obj),
            },
            *final(args) == *old(args),
    {
        let value = match args.default_arg("name", "map") {
            Ok(value) => value,
            Err(e) => {
                return Err(e);
            },
        };
        let name = match as_string(value, "map") {
            Ok(name) => name,
            Err(e) => {
                return Err(e);
            },
        };
        obj.database_name = Some(name);
        Ok(())
    }

    fn serialize(&self, obj: &dml::Model, _datamodel: &dml::Datamodel) -> (result: Result<
        Option<ast::Directive>,
        ValidationError,
    >)
        ensures
            result is Ok,
            match result->Ok_0 {
                Some(directive) => model_map_written(obj@) == Some(directive@),
                None => model_map_written(obj@) is None,
            },
    {
        match &obj.database_name {
            Some(name) => Ok(Some(write_map(name))),
            None => Ok(None),
        }
    }
}

/// The `@@unique` directive on a model: fields whose values together occur
/// in one record only.
pub struct ModelUniqueDirectiveValidator {}

/// The message for a unique criterion without fields.
pub const NO_FIELDS: &'static str = "A unique criterion names at least one field.";

/// The message for a unique criterion that names what is no field.
pub const UNKNOWN_FIELD: &'static str =
    "A unique criterion names fields of the model it stands on only.";

/// Whether `model` has a field called `name`.
pub open spec fn has_field_named(model: ModelView, name: Seq<char>) -> bool {
    exists|j: int| 0 <= j < model.fields.len() && (#[trigger] model.fields[j]).name == name
}

/// Whether all of `names` are called like fields of `model`.
pub open spec fn all_are_fields(model: ModelView, names: Seq<Seq<char>>) -> bool {
    forall|i: int| 0 <= i < names.len() ==> has_field_named(model, #[trigger] names[i])
}

/// `model` after `@@unique` with the arguments `args` at `span` was applied
/// to it, or why it cannot be: the argument `fields` is missing or no list
/// of names, or it lists nothing, or something that is no field of `model`.
pub open spec fn model_unique_applied(args: Seq<ArgumentView>, span: Span, model: ModelView) -> Result<
    ModelView,
    ErrorView,
> {
    match default_argument(args, "fields"@, "unique"@, span) {
        Ok(value) => match names_of(value, "unique"@) {
            Ok(names) => if names.len() == 0 {
                Err(directive_error("unique"@, NO_FIELDS@, span_of(value)))
            } else if !all_are_fields(model, names) {
                Err(directive_error("unique"@, UNKNOWN_FIELD@, span_of(value)))
            } else {
                Ok(ModelView { unique_criteria: model.unique_criteria.push(names), ..model })
            },
            Err(e) => Err(e),
        },
        Err(e) => Err(e),
    }
}

/// The directive `unique(fields: […])` for the fields `names`, as it is
/// written.
pub open spec fn unique_directive(names: Seq<Seq<char>>) -> DirectiveView {
    DirectiveView {
        name: "unique"@,
        arguments: seq![written_argument("fields"@, names_written(names))],
        span: nowhere(),
    }
}

/// The `@@unique` that `model` is written with: that of the unique
/// criterion that it got last, if it has any.
pub open spec fn model_unique_written(model: ModelView) -> Option<DirectiveView> {
    if model.unique_criteria.len() > 0 {
        Some(unique_directive(model.unique_criteria.last()))
    } else {
        None
    }
}

/// The argument of a directive `unique` that is written is read as the
/// fields that were written.
pub proof fn lemma_unique_argument_is_read(names: Seq<Seq<char>>, span: Span)
    ensures
        default_argument(unique_directive(names).arguments, "fields"@, "unique"@, span) == Ok::<
            crate::ast::ValueView,
            ErrorView,
        >(names_written(names)),
        names_of(names_written(names), "unique"@) == Ok::<Seq<Seq<char>>, ErrorView>(names),
{
    lemma_argument_names_differ();
    reveal_strlit("fields");
    let argument = written_argument("fields"@, names_written(names));
    let arguments = seq![argument];
    let named = |i: int| arguments[i].name == "fields"@;
    assert(named(0));
    crate::first::lemma_first_where_is(1, named, 0);
    let unnamed = |i: int| arguments[i].name == Seq::<char>::empty();
    crate::first::lemma_first_where(1, unnamed);
    let items = names_written(names)->Array_0;
    assert(all_constants(items));
    assert(Seq::new(items.len(), |i: int| items[i]->Constant_0) =~= names);
}

impl DirectiveValidator<dml::Model> for ModelUniqueDirectiveValidator {
    fn directive_name(&self) -> (name: &'static str)
        ensures
            name@ == "unique"@,
    {
        "unique"
    }

    fn validate_and_apply(&self, args: &mut Args, obj: &mut dml::Model) -> (result: Result<
        (),
        ValidationError,
    >)
        ensures
            match result {
                Ok(()) => model_unique_applied(old(args).values(), old(args).span, old(obj)@)
                    == Ok::<ModelView, ErrorView>(final(obj)@),
                Err(e) => model_unique_applied(old(args).values(), old(args).span, old(obj)@)
                    == Err::<ModelView, ErrorView>(e@) && *final(obj) == *old(obj),
            },
            *final(args) == *old(args),
    {
        let value = match args.default_arg("fields", "unique") {
            Ok(value) => value,
            Err(e) => {
                return Err(e);
            },
        };
        let names = match as_names(value, "unique") {
            Ok(names) => names,
            Err(e) => {
                return Err(e);
            },
        };
        if names.len() == 0 {
            return Err(
                ValidationError::new_directive_validation_error(
                    NO_FIELDS,
                    "unique",
                    value_span(value),
                ),
            );
        }
        let ghost views = names.deep_view();
        let mut i: usize = 0;
        while i < names.len()
            invariant
                i <= names@.len(),
                names@.len() > 0,
                views == names.deep_view(),
                *obj == *old(obj),
                *args == *old(args),
                default_argument(args.values(), "fields"@, "unique"@, args.span) == Ok::<
                    crate::ast::ValueView,
                    ErrorView,
                >(value@),
                names_of(value@, "unique"@) == Ok::<Seq<Seq<char>>, ErrorView>(views),
                forall|k: int| 0 <= k < i ==> has_field_named(obj@, #[trigger] views[k]),
            decreases names@.len() - i,
        {
            assert(views[i as int] == names@[i as int]@);
            match obj.find_field(names[i].as_str()) {
                Some(_) => {
                    proof {
                        let j = choose|j: int|
                            0 <= j < obj.fields@.len() && #[trigger] obj.fields@[j].name@
                                == names@[i as int]@;
                        assert(obj@.fields[j].name == views[i as int]);
                    }
                },
                None => {
                    proof {
                        if has_field_named(obj@, views[i as int]) {
                            let j = choose|j: int|
                                0 <= j < obj@.fields.len() && (#[trigger] obj@.fields[j]).name
                                    == views[i as int];
                            assert(obj.fields@[j].name@ == names@[i as int]@);
                        }
                    }
                    return Err(
                        ValidationError::new_directive_validation_error(
                            UNKNOWN_FIELD,
                            "unique",
                            value_span(value),
                        ),
                    );
                },
            }
            i += 1;
        }
        let ghost before = obj.unique_criteria.deep_view();
        obj.unique_criteria.push(names);
        assert(obj.unique_criteria.deep_view() =~= before.push(views));
        Ok(())
    }

    fn serialize(&self, obj: &dml::Model, _datamodel: &dml::Datamodel) -> (result: Result<
        Option<ast::Directive>,
        ValidationError,
    >)
        ensures
            result is Ok,
            match result->Ok_0 {
                Some(directive) => model_unique_written(obj@) == Some(directive@),
                None => model_unique_written(obj@) is None,
            },
    {
        let count = obj.unique_criteria.len();
        if count > 0 {
            let names = &obj.unique_criteria[count - 1];
            assert(obj@.unique_criteria.last() == names.deep_view());
            let mut arguments: Vec<ast::Argument> = Vec::new();
            arguments.push(
                ast::Argument {
                    name: crate::text::owned("fields"),
                    value: write_names(names),
                    span: Span::empty(),
                },
            );
            let directive = ast::Directive::new("unique", arguments);
            assert(directive@.arguments =~= unique_directive(names.deep_view()).arguments);
            Ok(Some(directive))
        } else {
            Ok(None)
        }
    }
}

} // verus!
