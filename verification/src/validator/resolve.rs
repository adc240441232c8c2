//! The check that every model a field refers to is part of the datamodel.

use crate::ast;
use crate::dml;
use crate::dml::FieldType;
use crate::errors::{ErrorCollection, ErrorView, ValidationError};
use crate::text::joined;
use crate::validator::validate::{state_error, STATE_ERROR};
use vstd::prelude::*;

verus! {

/// What is said of a type called `name` that is no scalar, no enum of the
/// datamodel and no model of it.
pub open spec fn unknown_type_message(name: Seq<char>) -> Seq<char> {
    "Type \""@ + name
        + "\" is neither a built-in type, nor refers to another model, custom type, or enum."@
}

/// What the check finds at `field`, a field of `model`: nothing, unless the
/// field refers to a model that `datamodel` does not hold. The diagnostic
/// stands at the type of the field in the syntax tree.
pub open spec fn unresolved_at(
    ast_schema: &ast::Datamodel,
    datamodel: &dml::Datamodel,
    model: &dml::Model,
    field: &dml::Field,
) -> Seq<ErrorView> {
    match field.field_type {
        FieldType::Relation(info) => if datamodel.has_model(info.to@) {
            Seq::empty()
        } else {
            match ast_schema.spec_find_field(model.name@, field.name@) {
                Some(ast_field) => seq![
                    ErrorView::Field {
                        message: unknown_type_message(info.to@),
                        model_name: model.name@,
                        field_name: field.name@,
                        span: ast_field.field_type_span,
                    },
                ],
                None => seq![state_error()],
            }
        },
        _ => Seq::empty(),
    }
}

/// What the check finds at the first `n` fields of `model`.
pub open spec fn unresolved_in_fields(
    ast_schema: &ast::Datamodel,
    datamodel: &dml::Datamodel,
    model: &dml::Model,
    n: nat,
) -> Seq<ErrorView>
    decreases n,
{
    if n == 0 {
        Seq::empty()
    } else {
        unresolved_in_fields(ast_schema, datamodel, model, (n - 1) as nat) + unresolved_at(
            ast_schema,
            datamodel,
            model,
            &model.fields@[n - 1],
        )
    }
}

/// What the check finds in the first `n` models of `datamodel`.
pub open spec fn unresolved_in_models(
    ast_schema: &ast::Datamodel,
    datamodel: &dml::Datamodel,
    n: nat,
) -> Seq<ErrorView>
    decreases n,
{
    if n == 0 {
        Seq::empty()
    } else {
        unresolved_in_models(ast_schema, datamodel, (n - 1) as nat) + unresolved_in_fields(
            ast_schema,
            datamodel,
            &datamodel.models@[n - 1],
            datamodel.models@[n - 1].fields@.len(),
        )
    }
}

/// All that the check finds in `datamodel`: a diagnostic for every field
/// that refers to a model that `datamodel` does not hold.
pub open spec fn unresolved(ast_schema: &ast::Datamodel, datamodel: &dml::Datamodel) -> Seq<
    ErrorView,
> {
    unresolved_in_models(ast_schema, datamodel, datamodel.models@.len())
}

/// Adds to `errors` what the check finds at one field, see
/// [`unresolved_at`].
fn check_field(
    ast_schema: &ast::Datamodel,
    datamodel: &dml::Datamodel,
    model: &dml::Model,
    field: &dml::Field,
    errors: &mut ErrorCollection,
)
    ensures
        final(errors)@ == old(errors)@ + unresolved_at(ast_schema, datamodel, model, field),
{
    if let FieldType::Relation(info) = &field.field_type {
        if datamodel.find_model(info.to.as_str()).is_none() {
            let error = match ast_schema.find_field(model.name.as_str(), field.name.as_str()) {
                Some(ast_field) => ValidationError::new_field_validation_error(
                    joined(
                        "Type \"",
                        info.to.as_str(),
                        "\" is neither a built-in type, nor refers to another model, custom type, or enum.",
                    ).as_str(),
                    model.name.as_str(),
                    field.name.as_str(),
                    ast_field.field_type_span,
                ),
                None => ValidationError::new_state_error(STATE_ERROR),
            };
            errors.push(error);
            assert(errors@ =~= old(errors)@ + seq![error@]);
            return ;
        }
    }
    assert(errors@ =~= old(errors)@ + Seq::<ErrorView>::empty());
}

/// Checks that every model a field of `datamodel` refers to is part of
/// `datamodel`, see [`unresolved`].
pub fn check_references(ast_schema: &ast::Datamodel, datamodel: &dml::Datamodel) -> (result:
    Result<(), ErrorCollection>)
    ensures
        match result {
            Ok(()) => unresolved(ast_schema, datamodel).len() == 0,
            Err(errors) => errors@.len() > 0 && errors@ == unresolved(ast_schema, datamodel),
        },
{
    let mut errors = ErrorCollection::new();
    let mut i: usize = 0;
    while i < datamodel.models.len()
        invariant
            i <= datamodel.models@.len(),
            errors@ == unresolved_in_models(ast_schema, datamodel, i as nat),
        decreases datamodel.models@.len() - i,
    {
        let model = &datamodel.models[i];
        let ghost before = errors@;
        let mut j: usize = 0;
        assert(errors@ =~= before + unresolved_in_fields(ast_schema, datamodel, model, 0));
        while j < model.fields.len()
            invariant
                j <= model.fields@.len(),
                errors@ == before + unresolved_in_fields(ast_schema, datamodel, model, j as nat),
            decreases model.fields@.len() - j,
        {
            check_field(ast_schema, datamodel, model, &model.fields[j], &mut errors);
            assert(errors@ =~= before + unresolved_in_fields(
                ast_schema,
                datamodel,
                model,
                (j + 1) as nat,
            ));
            j += 1;
        }
        i += 1;
    }
    if errors.has_errors() {
        Err(errors)
    } else {
        Ok(())
    }
}

/// What the check finds at one field is part of what it finds in the
/// datamodel.
pub proof fn lemma_unresolved_is_complete(
    ast_schema: &ast::Datamodel,
    datamodel: &dml::Datamodel,
    i: int,
    j: int,
    error: ErrorView,
)
    requires
        0 <= i < datamodel.models@.len(),
        0 <= j < datamodel.models@[i].fields@.len(),
        unresolved_at(
            ast_schema,
            datamodel,
            &datamodel.models@[i],
            &datamodel.models@[i].fields@[j],
        ).contains(error),
    ensures
        unresolved(ast_schema, datamodel).contains(error),
{
    let model = &datamodel.models@[i];
    lemma_kept_in_fields(ast_schema, datamodel, model, j, model.fields@.len(), error);
    lemma_kept_in_models(ast_schema, datamodel, i, datamodel.models@.len(), error);
}

/// What the check finds at field `j` of `model` is part of what it finds in
/// the first `n` fields, for every `n` beyond `j`.
proof fn lemma_kept_in_fields(
    ast_schema: &ast::Datamodel,
    datamodel: &dml::Datamodel,
    model: &dml::Model,
    j: int,
    n: nat,
    error: ErrorView,
)
    requires
        0 <= j < n <= model.fields@.len(),
        unresolved_at(ast_schema, datamodel, model, &model.fields@[j]).contains(error),
    ensures
        unresolved_in_fields(ast_schema, datamodel, model, n).contains(error),
    decreases n,
{
    let before = unresolved_in_fields(ast_schema, datamodel, model, (n - 1) as nat);
    let last = unresolved_at(ast_schema, datamodel, model, &model.fields@[n - 1]);
    if j == n - 1 {
        let k = choose|k: int| 0 <= k < last.len() && last[k] == error;
        assert((before + last)[before.len() + k] == error);
    } else {
        lemma_kept_in_fields(ast_schema, datamodel, model, j, (n - 1) as nat, error);
        let k = choose|k: int| 0 <= k < before.len() && before[k] == error;
        assert((before + last)[k] == error);
    }
}

/// What the check finds in model `i` is part of what it finds in the first
/// `n` models, for every `n` beyond `i`.
proof fn lemma_kept_in_models(
    ast_schema: &ast::Datamodel,
    datamodel: &dml::Datamodel,
    i: int,
    n: nat,
    error: ErrorView,
)
    requires
        0 <= i < n <= datamodel.models@.len(),
        unresolved_in_fields(
            ast_schema,
            datamodel,
            &datamodel.models@[i],
            datamodel.models@[i].fields@.len(),
        ).contains(error),
    ensures
        unresolved_in_models(ast_schema, datamodel, n).contains(error),
    decreases n,
{
    let before = unresolved_in_models(ast_schema, datamodel, (n - 1) as nat);
    let last = unresolved_in_fields(
        ast_schema,
        datamodel,
        &datamodel.models@[n - 1],
        datamodel.models@[n - 1].fields@.len(),
    );
    if i == n - 1 {
        let k = choose|k: int| 0 <= k < last.len() && last[k] == error;
        assert((before + last)[before.len() + k] == error);
    } else {
        lemma_kept_in_models(ast_schema, datamodel, i, (n - 1) as nat, error);
        let k = choose|k: int| 0 <= k < before.len() && before[k] == error;
        assert((before + last)[k] == error);
    }
}

} // verus!
