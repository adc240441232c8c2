//! From the syntax tree to the datamodel.
//!
//! Every model of the tree becomes a model and every enum an enum. The type
//! of a field is a scalar if it is called like one or like a type alias for
//! one, an enum if the tree declares an enum of that name, and else a
//! reference to the model of that name. The directives of a field and of a
//! model are applied in the order in which they stand, those of a type alias
//! before those of the field; one that cannot be applied leaves what it
//! stands on as it was and gives a diagnostic.

use crate::ast;
use crate::ast::{DirectiveView, TopView};
use crate::dml;
use crate::dml::{
    DatamodelView, EnumView, FieldType, FieldTypeView, FieldView, ModelView, OnDeleteStrategy,
    RelationInfoView, ScalarType,
};
use crate::errors::{ErrorCollection, ErrorView, ValidationError};
use crate::text::{owned, str_eq};
use crate::validator::directive::embedded::EmbeddedDirectiveValidator;
use crate::validator::directive::embedded::{embedded_directive, embedded_serialized};
use crate::validator::directive::field::{
    created_at_applied, created_at_written, default_applied, default_written, id_applied,
    id_written, is_bare_endpoint, lemma_default_round_trip, lemma_map_argument_is_read,
    lemma_relation_round_trip, map_applied, map_written, relation_applied, relation_written,
    unique_applied, unique_written, updated_at_applied, updated_at_written,
    CreatedAtDirectiveValidator, DefaultDirectiveValidator, IdDirectiveValidator,
    MapDirectiveValidator, RelationDirectiveValidator, UniqueDirectiveValidator,
    UpdatedAtDirectiveValidator,
};
use crate::validator::directive::model::{
    lemma_unique_argument_is_read, model_map_applied, model_map_written, model_unique_applied,
    model_unique_written, ModelMapDirectiveValidator, ModelUniqueDirectiveValidator,
};
use crate::validator::directive::{
    directive_error, Args, DirectiveValidator, UNKNOWN_DIRECTIVE,
};
use vstd::prelude::*;

verus! {

/// The scalar type called `name`.
pub open spec fn scalar_named(name: Seq<char>) -> Option<ScalarType> {
    if name == "Int"@ {
        Some(ScalarType::Int)
    } else if name == "Float"@ {
        Some(ScalarType::Float)
    } else if name == "Boolean"@ {
        Some(ScalarType::Boolean)
    } else if name == "String"@ {
        Some(ScalarType::String)
    } else if name == "DateTime"@ {
        Some(ScalarType::DateTime)
    } else if name == "Decimal"@ {
        Some(ScalarType::Decimal)
    } else if name == "Json"@ {
        Some(ScalarType::Json)
    } else if name == "Bytes"@ {
        Some(ScalarType::Bytes)
    } else {
        None
    }
}

/// Whether the tree declares an enum called `name`.
pub open spec fn declares_enum(tree: Seq<TopView>, name: Seq<char>) -> bool {
    exists|i: int|
        0 <= i < tree.len() && (#[trigger] tree[i] matches TopView::Enum(en) && en.name == name)
}

/// The first type alias of the tree that is called `name`.
pub open spec fn alias_named(tree: Seq<TopView>, name: Seq<char>) -> Option<ast::FieldView> {
    match crate::first::first_where(
        tree.len() as int,
        |i: int| tree[i] matches TopView::Type(alias) && alias.name == name,
    ) {
        Some(i) => Some(tree[i]->Type_0),
        None => None,
    }
}

/// The scalar type that `name` stands for: the scalar type of that name, or
/// else the scalar type that the type alias of that name stands for.
pub open spec fn scalar_behind(tree: Seq<TopView>, name: Seq<char>) -> Option<ScalarType> {
    match scalar_named(name) {
        Some(scalar) => Some(scalar),
        None => match alias_named(tree, name) {
            Some(alias) => scalar_named(alias.field_type),
            None => None,
        },
    }
}

/// The directives that a field has because its type is written as `name`:
/// those of the type alias of that name, if `name` stands for a scalar type
/// by such an alias.
pub open spec fn aliased_directives(tree: Seq<TopView>, name: Seq<char>) -> Seq<DirectiveView> {
    if scalar_named(name) is None && scalar_behind(tree, name) is Some {
        alias_named(tree, name)->0.directives
    } else {
        Seq::empty()
    }
}

/// The type that a field has whose type is written as `name`: a scalar if
/// `name` stands for one, an enum if the tree declares one of that name, and
/// else a reference to the model of that name.
pub open spec fn lifted_type(tree: Seq<TopView>, name: Seq<char>) -> FieldTypeView {
    match scalar_behind(tree, name) {
        Some(scalar) => FieldTypeView::Base(scalar),
        None => if declares_enum(tree, name) {
            FieldTypeView::Enum(name)
        } else {
            FieldTypeView::Relation(
                RelationInfoView {
                    to: name,
                    to_fields: Seq::empty(),
                    name: Seq::empty(),
                    on_delete: OnDeleteStrategy::NoAction,
                },
            )
        },
    }
}

/// How many values a field holds, as the datamodel says it.
pub open spec fn lifted_arity(arity: ast::FieldArity) -> dml::FieldArity {
    match arity {
        ast::FieldArity::Required => dml::FieldArity::Required,
        ast::FieldArity::Optional => dml::FieldArity::Optional,
        ast::FieldArity::List => dml::FieldArity::List,
    }
}

/// The field that `field` declares, before its directives are applied.
pub open spec fn bare_field(tree: Seq<TopView>, field: ast::FieldView) -> FieldView {
    FieldView {
        name: field.name,
        arity: lifted_arity(field.arity),
        field_type: lifted_type(tree, field.field_type),
        database_name: None,
        default_value: None,
        is_unique: false,
        is_id: false,
        is_generated: false,
        is_updated_at: false,
        is_created_at: false,
    }
}

/// `field` after `directive` was applied to it, or why `directive` cannot
/// be applied.
pub open spec fn field_directive_applied(directive: DirectiveView, field: FieldView) -> Result<
    FieldView,
    ErrorView,
> {
    let name = directive.name;
    if name == "id"@ {
        Ok(id_applied(field))
    } else if name == "unique"@ {
        Ok(unique_applied(field))
    } else if name == "createdAt"@ {
        Ok(created_at_applied(field))
    } else if name == "updatedAt"@ {
        updated_at_applied(directive.span, field)
    } else if name == "map"@ {
        map_applied(directive.arguments, directive.span, field)
    } else if name == "default"@ {
        default_applied(directive.arguments, directive.span, field)
    } else if name == "relation"@ {
        relation_applied(directive.arguments, directive.span, field)
    } else {
        Err(directive_error(name, UNKNOWN_DIRECTIVE@, directive.span))
    }
}

/// `model` after `directive` was applied to it, or why `directive` cannot
/// be applied.
pub open spec fn model_directive_applied(directive: DirectiveView, model: ModelView) -> Result<
    ModelView,
    ErrorView,
> {
    let name = directive.name;
    if name == "embedded"@ {
        Ok(ModelView { is_embedded: true, ..model })
    } else if name == "map"@ {
        model_map_applied(directive.arguments, directive.span, model)
    } else if name == "unique"@ {
        model_unique_applied(directive.arguments, directive.span, model)
    } else {
        Err(directive_error(name, UNKNOWN_DIRECTIVE@, directive.span))
    }
}

/// `field` after the first `n` of `directives` were applied to it, and the
/// diagnostics of those that could not be applied.
pub open spec fn with_field_directives(
    directives: Seq<DirectiveView>,
    field: FieldView,
    n: nat,
) -> (FieldView, Seq<ErrorView>)
    decreases n,
{
    if n == 0 {
        (field, Seq::empty())
    } else {
        let (before, errors) = with_field_directives(directives, field, (n - 1) as nat);
        match field_directive_applied(directives[n - 1], before) {
            Ok(after) => (after, errors),
            Err(e) => (before, errors.push(e)),
        }
    }
}

/// `model` after the first `n` of `directives` were applied to it, and the
/// diagnostics of those that could not be applied.
pub open spec fn with_model_directives(
    directives: Seq<DirectiveView>,
    model: ModelView,
    n: nat,
) -> (ModelView, Seq<ErrorView>)
    decreases n,
{
    if n == 0 {
        (model, Seq::empty())
    } else {
        let (before, errors) = with_model_directives(directives, model, (n - 1) as nat);
        match model_directive_applied(directives[n - 1], before) {
            Ok(after) => (after, errors),
            Err(e) => (before, errors.push(e)),
        }
    }
}

/// The field that `field` declares, and the diagnostics of its directives:
/// the directives that it has because of its type are applied first, and
/// then its own.
pub open spec fn lifted_field(tree: Seq<TopView>, field: ast::FieldView) -> (
    FieldView,
    Seq<ErrorView>,
) {
    let aliased = aliased_directives(tree, field.field_type);
    let (typed, errors) = with_field_directives(aliased, bare_field(tree, field), aliased.len());
    let (lifted, more) = with_field_directives(field.directives, typed, field.directives.len());
    (lifted, errors + more)
}

/// The fields that the first `n` of `fields` declare, and the diagnostics
/// of their directives.
pub open spec fn lifted_fields(tree: Seq<TopView>, fields: Seq<ast::FieldView>, n: nat) -> (
    Seq<FieldView>,
    Seq<ErrorView>,
)
    decreases n,
{
    if n == 0 {
        (Seq::empty(), Seq::empty())
    } else {
        let (before, errors) = lifted_fields(tree, fields, (n - 1) as nat);
        let (field, more) = lifted_field(tree, fields[n - 1]);
        (before.push(field), errors + more)
    }
}

/// The model that `model` declares, and the diagnostics of the directives
/// of its fields and of its own.
pub open spec fn lifted_model(tree: Seq<TopView>, model: ast::ModelView) -> (
    ModelView,
    Seq<ErrorView>,
) {
    let (fields, errors) = lifted_fields(tree, model.fields, model.fields.len());
    let bare = ModelView {
        name: model.name,
        fields,
        is_embedded: false,
        database_name: None,
        unique_criteria: Seq::empty(),
    };
    let (lifted, more) = with_model_directives(model.directives, bare, model.directives.len());
    (lifted, errors + more)
}

/// The enum that `en` declares.
pub open spec fn lifted_enum(en: ast::EnumView) -> EnumView {
    EnumView { name: en.name, values: Seq::new(en.values.len(), |i: int| en.values[i].name) }
}

/// The datamodel that the first `n` declarations of `tree` declare, and
/// the diagnostics of their directives.
pub open spec fn lifted_first(tree: Seq<TopView>, n: nat) -> (DatamodelView, Seq<ErrorView>)
    decreases n,
{
    if n == 0 {
        (DatamodelView { enums: Seq::empty(), models: Seq::empty() }, Seq::empty())
    } else {
        let (before, errors) = lifted_first(tree, (n - 1) as nat);
        match tree[n - 1] {
            TopView::Model(model) => {
                let (lifted, more) = lifted_model(tree, model);
                (DatamodelView { models: before.models.push(lifted), ..before }, errors + more)
            },
            TopView::Enum(en) => (
                DatamodelView { enums: before.enums.push(lifted_enum(en)), ..before },
                errors,
            ),
            _ => (before, errors),
        }
    }
}

/// The datamodel that `tree` declares, and the diagnostics of its
/// directives.
pub open spec fn lifted(tree: Seq<TopView>) -> (DatamodelView, Seq<ErrorView>) {
    lifted_first(tree, tree.len())
}

/// The directive called `name` that `field` is written with, if it carries
/// what the directive stands for.
pub open spec fn field_directive_written(name: Seq<char>, field: FieldView) -> Option<
    DirectiveView,
> {
    if name == "id"@ {
        id_written(field)
    } else if name == "unique"@ {
        unique_written(field)
    } else if name == "createdAt"@ {
        created_at_written(field)
    } else if name == "updatedAt"@ {
        updated_at_written(field)
    } else if name == "map"@ {
        map_written(field)
    } else if name == "default"@ {
        default_written(field)
    } else if name == "relation"@ {
        relation_written(field)
    } else {
        None
    }
}

/// The directive called `name` that `model` is written with, if it carries
/// what the directive stands for.
pub open spec fn model_directive_written(name: Seq<char>, model: ModelView) -> Option<
    DirectiveView,
> {
    if name == "embedded"@ {
        if model.is_embedded {
            Some(embedded_directive())
        } else {
            None
        }
    } else if name == "map"@ {
        model_map_written(model)
    } else if name == "unique"@ {
        model_unique_written(model)
    } else {
        None
    }
}

/// Directives on fields come back: the directive that a field is written
/// with after a directive was applied to it has the name of that directive
/// and applies to the same effect. Where nothing is written, the directive
/// changed nothing.
///
/// Of `@relation` this holds on a field of which no `@relation` said
/// anything before.
pub proof fn lemma_field_directive_round_trip(directive: DirectiveView, field: FieldView)
    requires
        field_directive_applied(directive, field) is Ok,
        directive.name == "relation"@ ==> is_bare_endpoint(field),
    ensures
        match field_directive_written(
            directive.name,
            field_directive_applied(directive, field)->Ok_0,
        ) {
            Some(written) => written.name == directive.name && field_directive_applied(
                DirectiveView { span: directive.span, ..written },
                field,
            ) == field_directive_applied(directive, field),
            None => field_directive_applied(directive, field) == Ok::<FieldView, ErrorView>(field),
        },
{
    let name = directive.name;
    let after = field_directive_applied(directive, field)->Ok_0;
    if name == "id"@ {
    } else if name == "unique"@ {
    } else if name == "createdAt"@ {
    } else if name == "updatedAt"@ {
    } else if name == "map"@ {
        lemma_map_argument_is_read(after.database_name->0, directive.span);
    } else if name == "default"@ {
        lemma_default_round_trip(directive.arguments, directive.span, directive.span, field);
    } else if name == "relation"@ {
        lemma_relation_round_trip(directive.arguments, directive.span, field);
    }
}

/// Directives on models come back: the directive that a model is written
/// with after a directive was applied to it has the name of that directive
/// and applies to the same effect.
pub proof fn lemma_model_directive_round_trip(directive: DirectiveView, model: ModelView)
    requires
        model_directive_applied(directive, model) is Ok,
    ensures
        model_directive_written(
            directive.name,
            model_directive_applied(directive, model)->Ok_0,
        ) matches Some(written) && written.name == directive.name && model_directive_applied(
            DirectiveView { span: directive.span, ..written },
            model,
        ) == model_directive_applied(directive, model),
{
    let name = directive.name;
    let after = model_directive_applied(directive, model)->Ok_0;
    if name == "embedded"@ {
    } else if name == "map"@ {
        lemma_map_argument_is_read(after.database_name->0, directive.span);
    } else if name == "unique"@ {
        lemma_unique_argument_is_read(after.unique_criteria.last(), directive.span);
    }
}

/// The scalar type called `name`.
pub fn scalar_type_named(name: &str) -> (scalar: Option<ScalarType>)
    ensures
        scalar == scalar_named(name@),
{
    if str_eq(name, "Int") {
        Some(ScalarType::Int)
    } else if str_eq(name, "Float") {
        Some(ScalarType::Float)
    } else if str_eq(name, "Boolean") {
        Some(ScalarType::Boolean)
    } else if str_eq(name, "String") {
        Some(ScalarType::String)
    } else if str_eq(name, "DateTime") {
        Some(ScalarType::DateTime)
    } else if str_eq(name, "Decimal") {
        Some(ScalarType::Decimal)
    } else if str_eq(name, "Json") {
        Some(ScalarType::Json)
    } else if str_eq(name, "Bytes") {
        Some(ScalarType::Bytes)
    } else {
        None
    }
}

/// Whether the tree declares an enum called `name`.
fn has_enum(tree: &ast::Datamodel, name: &str) -> (has: bool)
    ensures
        has == declares_enum(tree@, name@),
{
    let mut i: usize = 0;
    while i < tree.models.len()
        invariant
            i <= tree.models@.len(),
            forall|j: int|
                0 <= j < i ==> !(#[trigger] tree@[j] matches TopView::Enum(en) && en.name
                    == name@),
        decreases tree.models@.len() - i,
    {
        if let ast::Top::Enum(en) = &tree.models[i] {
            if str_eq(en.name.as_str(), name) {
                assert(tree@[i as int] matches TopView::Enum(en) && en.name == name@);
                return true;
            }
        }
        assert(tree@[i as int] == tree.models@[i as int]@);
        i += 1;
    }
    false
}

/// The first type alias of the tree that is called `name`.
fn find_alias<'a>(tree: &'a ast::Datamodel, name: &str) -> (found: Option<&'a ast::Field>)
    ensures
        match found {
            Some(alias) => alias_named(tree@, name@) == Some(alias@),
            None => alias_named(tree@, name@) is None,
        },
{
    let ghost views = tree@;
    let ghost named = |i: int| views[i] matches TopView::Type(alias) && alias.name == name@;
    let mut i: usize = 0;
    while i < tree.models.len()
        invariant
            i <= tree.models@.len(),
            views == tree@,
            named == (|i: int| views[i] matches TopView::Type(alias) && alias.name == name@),
            forall|j: int| 0 <= j < i ==> !#[trigger] named(j),
        decreases tree.models@.len() - i,
    {
        assert(views[i as int] == tree.models@[i as int]@);
        if let ast::Top::Type(alias) = &tree.models[i] {
            if str_eq(alias.name.as_str(), name) {
                proof {
                    assert(named(i as int));
                    crate::first::lemma_first_where_is(views.len() as int, named, i as int);
                }
                return Some(alias);
            }
        }
        assert(!named(i as int));
        i += 1;
    }
    proof {
        crate::first::lemma_first_where(views.len() as int, named);
    }
    None
}

/// The type that a field has whose type is written as `name`, and the type
/// alias that it has directives from, if there is one.
fn lift_type<'a>(tree: &'a ast::Datamodel, name: &str) -> (lifted: (
    FieldType,
    Option<&'a ast::Field>,
))
    ensures
        lifted.0@ == lifted_type(tree@, name@),
        match lifted.1 {
            Some(alias) => aliased_directives(tree@, name@) == alias@.directives,
            None => aliased_directives(tree@, name@) == Seq::<DirectiveView>::empty(),
        },
{
    if let Some(scalar) = scalar_type_named(name) {
        return (FieldType::Base(scalar), None);
    }
    if let Some(alias) = find_alias(tree, name) {
        if let Some(scalar) = scalar_type_named(alias.field_type.as_str()) {
            return (FieldType::Base(scalar), Some(alias));
        }
    }
    if has_enum(tree, name) {
        (FieldType::Enum(owned(name)), None)
    } else {
        let info = dml::RelationInfo::new(name);
        assert(info@.to_fields =~= Seq::empty());
        assert(info@.name =~= Seq::empty());
        (FieldType::Relation(info), None)
    }
}

/// Applies `directive` to `field`, see [`field_directive_applied`].
fn apply_field_directive(directive: &ast::Directive, field: &mut dml::Field) -> (result: Result<
    (),
    ValidationError,
>)
    ensures
        match result {
            Ok(()) => field_directive_applied(directive@, old(field)@) == Ok::<
                FieldView,
                ErrorView,
            >(final(field)@),
            Err(e) => field_directive_applied(directive@, old(field)@) == Err::<
                FieldView,
                ErrorView,
            >(e@) && final(field)@ == old(field)@,
        },
{
    let mut args = Args::new(&directive.arguments, directive.span);
    let name = directive.name.as_str();
    if str_eq(name, "id") {
        (IdDirectiveValidator {  }).validate_and_apply(&mut args, field)
    } else if str_eq(name, "unique") {
        (UniqueDirectiveValidator {  }).validate_and_apply(&mut args, field)
    } else if str_eq(name, "createdAt") {
        (CreatedAtDirectiveValidator {  }).validate_and_apply(&mut args, field)
    } else if str_eq(name, "updatedAt") {
        (UpdatedAtDirectiveValidator {  }).validate_and_apply(&mut args, field)
    } else if str_eq(name, "map") {
        (MapDirectiveValidator {  }).validate_and_apply(&mut args, field)
    } else if str_eq(name, "default") {
        (DefaultDirectiveValidator {  }).validate_and_apply(&mut args, field)
    } else if str_eq(name, "relation") {
        (RelationDirectiveValidator {  }).validate_and_apply(&mut args, field)
    } else {
        Err(
            ValidationError::new_directive_validation_error(
                UNKNOWN_DIRECTIVE,
                name,
                directive.span,
            ),
        )
    }
}

/// Applies `directive` to `model`, see [`model_directive_applied`].
fn apply_model_directive(directive: &ast::Directive, model: &mut dml::Model) -> (result: Result<
    (),
    ValidationError,
>)
    ensures
        match result {
            Ok(()) => model_directive_applied(directive@, old(model)@) == Ok::<
                ModelView,
                ErrorView,
            >(final(model)@),
            Err(e) => model_directive_applied(directive@, old(model)@) == Err::<
                ModelView,
                ErrorView,
            >(e@) && final(model)@ == old(model)@,
        },
{
    let mut args = Args::new(&directive.arguments, directive.span);
    let name = directive.name.as_str();
    if str_eq(name, "embedded") {
        (EmbeddedDirectiveValidator {  }).validate_and_apply(&mut args, model)
    } else if str_eq(name, "map") {
        (ModelMapDirectiveValidator {  }).validate_and_apply(&mut args, model)
    } else if str_eq(name, "unique") {
        (ModelUniqueDirectiveValidator {  }).validate_and_apply(&mut args, model)
    } else {
        Err(
            ValidationError::new_directive_validation_error(
                UNKNOWN_DIRECTIVE,
                name,
                directive.span,
            ),
        )
    }
}

/// Applies `directives` to `field` one after another; the diagnostics of
/// those that cannot be applied are added to `errors`.
fn apply_field_directives(
    directives: &Vec<ast::Directive>,
    field: &mut dml::Field,
    errors: &mut ErrorCollection,
)
    ensures
        final(field)@ == with_field_directives(
            directives.deep_view(),
            old(field)@,
            directives@.len(),
        ).0,
        final(errors)@ == old(errors)@ + with_field_directives(
            directives.deep_view(),
            old(field)@,
            directives@.len(),
        ).1,
{
    let ghost bare = field@;
    let ghost views = directives.deep_view();
    let mut i: usize = 0;
    assert(errors@ =~= old(errors)@ + with_field_directives(views, bare, 0).1);
    while i < directives.len()
        invariant
            i <= directives@.len(),
            views == directives.deep_view(),
            field@ == with_field_directives(views, bare, i as nat).0,
            errors@ == old(errors)@ + with_field_directives(views, bare, i as nat).1,
        decreases directives@.len() - i,
    {
        assert(views[i as int] == directives@[i as int]@);
        match apply_field_directive(&directives[i], field) {
            Ok(()) => {},
            Err(e) => {
                errors.push(e);
                assert(errors@ =~= old(errors)@ + with_field_directives(
                    views,
                    bare,
                    (i + 1) as nat,
                ).1);
            },
        }
        i += 1;
    }
}

/// The field that `field` declares; the diagnostics of its directives are
/// added to `errors`.
fn lift_field(tree: &ast::Datamodel, field: &ast::Field, errors: &mut ErrorCollection) -> (lifted:
    dml::Field)
    ensures
        lifted@ == lifted_field(tree@, field@).0,
        final(errors)@ == old(errors)@ + lifted_field(tree@, field@).1,
{
    let (field_type, alias) = lift_type(tree, field.field_type.as_str());
    let mut lifted = dml::Field::new(field.name.as_str(), field_type);
    lifted.arity =
    match field.arity {
        ast::FieldArity::Required => dml::FieldArity::Required,
        ast::FieldArity::Optional => dml::FieldArity::Optional,
        ast::FieldArity::List => dml::FieldArity::List,
    };
    match alias {
        Some(alias) => {
            apply_field_directives(&alias.directives, &mut lifted, errors);
        },
        None => {
            assert(errors@ =~= old(errors)@ + Seq::<ErrorView>::empty());
        },
    }
    let ghost first = errors@;
    apply_field_directives(&field.directives, &mut lifted, errors);
    assert(errors@ =~= old(errors)@ + lifted_field(tree@, field@).1);
    lifted
}

/// The model that `model` declares; the diagnostics of its directives are
/// added to `errors`.
fn lift_model(tree: &ast::Datamodel, model: &ast::Model, errors: &mut ErrorCollection) -> (lifted:
    dml::Model)
    ensures
        lifted@ == lifted_model(tree@, model@).0,
        final(errors)@ == old(errors)@ + lifted_model(tree@, model@).1,
{
    let mut lifted = dml::Model::new(model.name.as_str());
    let ghost fields = model@.fields;
    let mut i: usize = 0;
    assert(lifted.fields.deep_view() =~= lifted_fields(tree@, fields, 0).0);
    assert(errors@ =~= old(errors)@ + lifted_fields(tree@, fields, 0).1);
    while i < model.fields.len()
        invariant
            i <= model.fields@.len(),
            fields == model@.fields,
            lifted.name@ == model.name@,
            !lifted.is_embedded,
            lifted.database_name is None,
            lifted.unique_criteria@.len() == 0,
            lifted.fields.deep_view() == lifted_fields(tree@, fields, i as nat).0,
            errors@ == old(errors)@ + lifted_fields(tree@, fields, i as nat).1,
        decreases model.fields@.len() - i,
    {
        let ghost before = lifted.fields.deep_view();
        let ghost found = errors@;
        assert(fields[i as int] == model.fields@[i as int]@);
        let field = lift_field(tree, &model.fields[i], errors);
        lifted.fields.push(field);
        assert(lifted.fields.deep_view() =~= before.push(field@));
        assert(errors@ =~= old(errors)@ + lifted_fields(tree@, fields, (i + 1) as nat).1);
        i += 1;
    }
    assert(lifted.unique_criteria.deep_view() =~= Seq::<Seq<Seq<char>>>::empty());
    let ghost bare = lifted@;
    let ghost field_errors = errors@;
    let ghost directives = model@.directives;
    let mut k: usize = 0;
    assert(errors@ =~= field_errors + with_model_directives(directives, bare, 0).1);
    while k < model.directives.len()
        invariant
            k <= model.directives@.len(),
            directives == model@.directives,
            lifted@ == with_model_directives(directives, bare, k as nat).0,
            errors@ == field_errors + with_model_directives(directives, bare, k as nat).1,
        decreases model.directives@.len() - k,
    {
        assert(directives[k as int] == model.directives@[k as int]@);
        match apply_model_directive(&model.directives[k], &mut lifted) {
            Ok(()) => {},
            Err(e) => {
                errors.push(e);
                assert(errors@ =~= field_errors + with_model_directives(
                    directives,
                    bare,
                    (k + 1) as nat,
                ).1);
            },
        }
        k += 1;
    }
    assert(errors@ =~= old(errors)@ + lifted_model(tree@, model@).1);
    lifted
}

/// The enum that `en` declares.
fn lift_enum(en: &ast::Enum) -> (lifted: dml::Enum)
    ensures
        lifted@ == lifted_enum(en@),
{
    let mut values: Vec<String> = Vec::new();
    let mut i: usize = 0;
    while i < en.values.len()
        invariant
            i <= en.values@.len(),
            values@.len() == i,
            forall|j: int| 0 <= j < i ==> #[trigger] values@[j]@ == en.values@[j].name@,
        decreases en.values@.len() - i,
    {
        values.push(en.values[i].name.clone());
        i += 1;
    }
    let lifted = dml::Enum { name: en.name.clone(), values };
    assert(lifted@.values =~= lifted_enum(en@).values);
    lifted
}

/// The datamodel that `tree` declares, see [`lifted`]. Where a directive
/// cannot be applied, the diagnostics of all such directives are given
/// instead.
pub fn lift(tree: &ast::Datamodel) -> (result: Result<dml::Datamodel, ErrorCollection>)
    ensures
        match result {
            Ok(datamodel) => lifted(tree@).1.len() == 0 && datamodel@ == lifted(tree@).0,
            Err(errors) => errors@.len() > 0 && errors@ == lifted(tree@).1,
        },
{
    let mut datamodel = dml::Datamodel::new();
    let mut errors = ErrorCollection::new();
    let mut i: usize = 0;
    assert(datamodel@.models =~= Seq::empty());
    assert(datamodel@.enums =~= Seq::empty());
    while i < tree.models.len()
        invariant
            i <= tree.models@.len(),
            datamodel@ == lifted_first(tree@, i as nat).0,
            errors@ == lifted_first(tree@, i as nat).1,
        decreases tree.models@.len() - i,
    {
        let ghost before = datamodel@;
        let ghost found = errors@;
        assert(tree@[i as int] == tree.models@[i as int]@);
        match &tree.models[i] {
            ast::Top::Model(model) => {
                let lifted = lift_model(tree, model, &mut errors);
                datamodel.models.push(lifted);
                assert(datamodel@.models =~= before.models.push(lifted@));
            },
            ast::Top::Enum(en) => {
                let lifted = lift_enum(en);
                datamodel.enums.push(lifted);
                assert(datamodel@.enums =~= before.enums.push(lifted@));
                assert(errors@ =~= found);
            },
            _ => {},
        }
        i += 1;
    }
    if errors.has_errors() {
        Err(errors)
    } else {
        Ok(datamodel)
    }
}

} // verus!
