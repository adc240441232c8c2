//! The semantic checks on the models of a datamodel.
//!
//! Every check answers for one model with the first diagnostic it finds, and
//! [`Validator::validate`] collects the answers of all checks on all models.

use crate::ast;
use crate::configuration;
use crate::dml;
use crate::errors::{ErrorCollection, ErrorView, ValidationError};
use crate::first::{first_where, is_first_where, lemma_first_where, lemma_first_where_is};
use crate::text::str_eq;
use vstd::prelude::*;

verus! {

/// The message of the diagnostic for a model or field of the datamodel that
/// its syntax tree does not hold.
pub const STATE_ERROR: &'static str =
    "Failed lookup of model, field or optional property during internal processing. This means that the internal representation was mutated incorrectly.";

/// The message for a model without exactly one id field.
pub const MISSING_ID: &'static str =
    "Exactly one field must be marked as the id field with the `@id` directive.";

/// The message for an id field of a shape that is not allowed.
pub const INVALID_ID: &'static str =
    "Invalid ID field. ID field must be one of: Int @id, String @id @default(cuid()), String @id @default(uuid()).";

/// The message for two fields that are endpoints of the same relation to
/// another model.
pub const AMBIGUOUS_RELATION: &'static str = "Ambiguous relation detected.";

/// The message for three fields that are endpoints of the same relation of a
/// model to itself.
pub const AMBIGUOUS_SELF_RELATION: &'static str = "Ambiguous self relation detected.";

/// The message for an embedded model that refers back to its owner.
pub const EMBEDDED_BACK_RELATION: &'static str =
    "Embedded models cannot have back relation fields.";

/// The diagnostic for a lookup that failed.
pub open spec fn state_error() -> ErrorView {
    ErrorView::State { message: STATE_ERROR@ }
}

/// The diagnostic `message` about `model`, placed at the declaration of its
/// field `field` in the syntax tree; where the syntax tree holds no such
/// field, the diagnostic for a failed lookup.
pub open spec fn error_at_field(
    ast_schema: &ast::Datamodel,
    message: Seq<char>,
    model: Seq<char>,
    field: Seq<char>,
) -> ErrorView {
    match ast_schema.spec_find_field(model, field) {
        Some(ast_field) => ErrorView::Model { message, model_name: model, span: ast_field.span },
        None => state_error(),
    }
}

/// Whether the model meets the rule on the number of id fields: it has
/// exactly one, or it is a relation model.
pub open spec fn has_id(model: &dml::Model) -> bool {
    model.spec_is_relation_model() || model.id_field_count() == 1
}

/// What the rule on the number of id fields finds in `model`, declared at
/// `ast_model`.
pub open spec fn id_count_error(ast_model: &ast::Model, model: &dml::Model) -> Option<ErrorView> {
    if has_id(model) {
        None
    } else {
        Some(
            ErrorView::Model {
                message: MISSING_ID@,
                model_name: model.name@,
                span: ast_model.span,
            },
        )
    }
}

/// Whether a field has one of the three shapes allowed for an id:
/// a required `Int` without default, or a required `String` whose default is
/// a call of `cuid` or `uuid` without arguments that returns a `String`.
pub open spec fn is_valid_id_field(field: &dml::Field) -> bool {
    &&& field.arity == dml::FieldArity::Required
    &&& match field.default_value {
        None => field.field_type == dml::FieldType::Base(dml::ScalarType::Int),
        Some(dml::Value::Expression(name, return_type, args)) => {
            &&& field.field_type == dml::FieldType::Base(dml::ScalarType::String)
            &&& (name@ == "cuid"@ || name@ == "uuid"@)
            &&& return_type == dml::ScalarType::String
            &&& args@.len() == 0
        },
        Some(_) => false,
    }
}

/// Whether field `i` of `model` is an id field of a shape that is not
/// allowed.
pub open spec fn is_invalid_id_at(model: &dml::Model, i: int) -> bool {
    model.fields@[i].is_id && !is_valid_id_field(&model.fields@[i])
}

/// What the rule on the shape of id fields finds in `model`: the first id
/// field of another shape.
pub open spec fn id_shape_error(ast_schema: &ast::Datamodel, model: &dml::Model) -> Option<
    ErrorView,
> {
    match first_where(model.fields@.len() as int, |i: int| is_invalid_id_at(model, i)) {
        Some(i) => Some(
            error_at_field(ast_schema, INVALID_ID@, model.name@, model.fields@[i].name@),
        ),
        None => None,
    }
}

/// Whether both fields `a` and `b` of `model` refer to models other than
/// `model` itself.
pub open spec fn both_point_away(model: &dml::Model, a: int, b: int) -> bool {
    &&& model.fields@[a].field_type matches dml::FieldType::Relation(rel_a)
    &&& model.fields@[b].field_type matches dml::FieldType::Relation(rel_b)
    &&& rel_a.to@ != model.name@
    &&& rel_b.to@ != model.name@
}

/// Whether field `c` of `model`, a field other than `a` and `b`, refers to
/// `model` itself under the relation name that `a` and `b` share.
pub open spec fn is_third_endpoint(model: &dml::Model, a: int, b: int, c: int) -> bool {
    &&& 0 <= c < model.fields@.len()
    &&& c != a
    &&& c != b
    &&& model.fields@[a].field_type matches dml::FieldType::Relation(rel_a)
    &&& model.fields@[b].field_type matches dml::FieldType::Relation(rel_b)
    &&& model.fields@[c].field_type matches dml::FieldType::Relation(rel_c)
    &&& rel_c.to@ == model.name@
    &&& rel_a.name@ == rel_b.name@
    &&& rel_a.name@ == rel_c.name@
}

/// Whether the distinct relation fields `a` and `b` of `model` cannot be
/// told apart. Where both refer to other models, they refer to the same
/// model under the same relation name. Where one of them refers to `model`
/// itself, a third field does so under the name that the two share.
pub open spec fn is_ambiguous_pair(model: &dml::Model, a: int, b: int) -> bool {
    &&& a != b
    &&& model.fields@[a].field_type matches dml::FieldType::Relation(rel_a)
    &&& model.fields@[b].field_type matches dml::FieldType::Relation(rel_b)
    &&& if both_point_away(model, a, b) {
        rel_a.to@ == rel_b.to@ && rel_a.name@ == rel_b.name@
    } else {
        exists|c: int| is_third_endpoint(model, a, b, c)
    }
}

/// The first field of `model` that field `a` cannot be told apart from.
pub open spec fn first_ambiguous_partner(model: &dml::Model, a: int) -> Option<int> {
    first_where(model.fields@.len() as int, |b: int| is_ambiguous_pair(model, a, b))
}

/// The first field of `model` that cannot be told apart from another.
pub open spec fn first_ambiguous_field(model: &dml::Model) -> Option<int> {
    first_where(
        model.fields@.len() as int,
        |a: int| first_ambiguous_partner(model, a) is Some,
    )
}

/// What the rule on ambiguous relations finds in `model`: the first field
/// that cannot be told apart from another, with the message that fits the
/// first such other field.
pub open spec fn ambiguity_error(ast_schema: &ast::Datamodel, model: &dml::Model) -> Option<
    ErrorView,
> {
    match first_ambiguous_field(model) {
        Some(a) => {
            let b = first_ambiguous_partner(model, a)->0;
            let message = if both_point_away(model, a, b) {
                AMBIGUOUS_RELATION@
            } else {
                AMBIGUOUS_SELF_RELATION@
            };
            Some(error_at_field(ast_schema, message, model.name@, model.fields@[a].name@))
        },
        None => None,
    }
}

/// What the rule on embedded models finds at field `i` of the embedded
/// model `model`. A field that the library added, and one that is no
/// relation, is passed. For any other, the model it refers to and the field
/// there that leads back are looked up; the field is refused if it refers to
/// no fields of the other model and the field that leads back was written
/// by the user.
pub open spec fn embedded_error_at(
    ast_schema: &ast::Datamodel,
    datamodel: &dml::Datamodel,
    model: &dml::Model,
    i: int,
) -> Option<ErrorView> {
    let field = model.fields@[i];
    match field.field_type {
        dml::FieldType::Relation(rel) => if field.is_generated {
            None
        } else {
            match datamodel.spec_find_model(rel.to@) {
                Some(related) => match related.spec_related_field(
                    model.name@,
                    rel.name@,
                    field.name@,
                ) {
                    Some(related_field) => if rel.to_fields@.len() == 0
                        && !related_field.is_generated {
                        Some(
                            error_at_field(
                                ast_schema,
                                EMBEDDED_BACK_RELATION@,
                                model.name@,
                                field.name@,
                            ),
                        )
                    } else {
                        None
                    },
                    None => Some(state_error()),
                },
                None => Some(state_error()),
            }
        },
        _ => None,
    }
}

/// What the rule on embedded models finds in `model`: nothing if the model
/// is not embedded, and else what it finds at the first field at which it
/// finds anything.
pub open spec fn embedded_error(
    ast_schema: &ast::Datamodel,
    datamodel: &dml::Datamodel,
    model: &dml::Model,
) -> Option<ErrorView> {
    if model.is_embedded {
        match first_where(
            model.fields@.len() as int,
            |i: int| embedded_error_at(ast_schema, datamodel, model, i) is Some,
        ) {
            Some(i) => embedded_error_at(ast_schema, datamodel, model, i),
            None => None,
        }
    } else {
        None
    }
}

/// What the rule on the number of id fields finds in `model`, whose
/// declaration is looked up in the syntax tree.
pub open spec fn model_id_count_error(ast_schema: &ast::Datamodel, model: &dml::Model) -> Option<
    ErrorView,
> {
    match ast_schema.spec_find_model(model.name@) {
        Some(ast_model) => id_count_error(&ast_model, model),
        None => Some(state_error()),
    }
}

/// The diagnostic of a check, as a sequence of at most one.
pub open spec fn found(error: Option<ErrorView>) -> Seq<ErrorView> {
    match error {
        Some(e) => seq![e],
        None => Seq::empty(),
    }
}

/// What the four rules find in `model`, rule by rule.
pub open spec fn model_errors(
    ast_schema: &ast::Datamodel,
    datamodel: &dml::Datamodel,
    model: &dml::Model,
) -> Seq<ErrorView> {
    found(model_id_count_error(ast_schema, model)) + found(id_shape_error(ast_schema, model))
        + found(ambiguity_error(ast_schema, model)) + found(
        embedded_error(ast_schema, datamodel, model),
    )
}

/// What the rules find in the first `n` models of `datamodel`.
pub open spec fn errors_of_first(
    ast_schema: &ast::Datamodel,
    datamodel: &dml::Datamodel,
    n: nat,
) -> Seq<ErrorView>
    decreases n,
{
    if n == 0 {
        Seq::empty()
    } else {
        errors_of_first(ast_schema, datamodel, (n - 1) as nat) + model_errors(
            ast_schema,
            datamodel,
            &datamodel.models@[n - 1],
        )
    }
}

/// All that the rules find in `datamodel`: model by model, and for each
/// model rule by rule.
pub open spec fn validation_errors(ast_schema: &ast::Datamodel, datamodel: &dml::Datamodel) -> Seq<
    ErrorView,
> {
    errors_of_first(ast_schema, datamodel, datamodel.models@.len())
}

/// Holds datamodels to the rules that no single declaration can be held
/// to.
#[derive(Default)]
pub struct Validator {}

impl Validator {
    /// Creates a new instance.
    pub fn new() -> (validator: Validator)
        ensures
            validator == (Validator {  }),
    {
        Validator {  }
    }

    /// Creates a new instance for a datamodel with the given sources. The
    /// sources bring no rules of their own.
    pub fn with_sources(_sources: &[Box<dyn configuration::Source>]) -> (validator: Validator)
        ensures
            validator == (Validator {  }),
    {
        Validator {  }
    }

    /// Holds every model of `schema` to the four rules and collects what
    /// they find. `schema` is left as it was.
    pub fn validate(&self, ast_schema: &ast::Datamodel, schema: &mut dml::Datamodel) -> (result:
        Result<(), ErrorCollection>)
        ensures
            *final(schema) == *old(schema),
            match result {
                Ok(()) => validation_errors(ast_schema, old(schema)).len() == 0,
                Err(errors) => errors@.len() > 0 && errors@ == validation_errors(
                    ast_schema,
                    old(schema),
                ),
            },
    {
        let mut errors = ErrorCollection::new();
        let mut k: usize = 0;
        while k < schema.models.len()
            invariant
                *schema == *old(schema),
                k <= schema.models@.len(),
                errors@ == errors_of_first(ast_schema, schema, k as nat),
            decreases schema.models@.len() - k,
        {
            self.validate_model(ast_schema, schema, &schema.models[k], &mut errors);
            k += 1;
        }
        if errors.has_errors() {
            Err(errors)
        } else {
            Ok(())
        }
    }

    /// Holds `model` to the four rules and adds what they find to `errors`.
    fn validate_model(
        &self,
        ast_schema: &ast::Datamodel,
        schema: &dml::Datamodel,
        model: &dml::Model,
        errors: &mut ErrorCollection,
    )
        ensures
            final(errors)@ == old(errors)@ + model_errors(ast_schema, schema, model),
    {
        match ast_schema.find_model(model.name.as_str()) {
            Some(ast_model) => {
                if let Err(err) = self.validate_model_has_id(ast_model, model) {
                    errors.push(err);
                }
            },
            None => {
                errors.push(ValidationError::new_state_error(STATE_ERROR));
            },
        }
        assert(errors@ =~= old(errors)@ + found(model_id_count_error(ast_schema, model)));
        let ghost first = errors@;
        if let Err(err) = self.validate_id_fields_valid(ast_schema, model) {
            errors.push(err);
        }
        assert(errors@ =~= first + found(id_shape_error(ast_schema, model)));
        let ghost second = errors@;
        if let Err(err) = self.validate_relations_not_ambiguous(ast_schema, model) {
            errors.push(err);
        }
        assert(errors@ =~= second + found(ambiguity_error(ast_schema, model)));
        let ghost third = errors@;
        if let Err(err) = self.validate_embedded_types_have_no_back_relation(
            ast_schema,
            schema,
            model,
        ) {
            errors.push(err);
        }
        assert(errors@ =~= third + found(embedded_error(ast_schema, schema, model)));
        assert(errors@ =~= old(errors)@ + model_errors(ast_schema, schema, model));
    }

    /// The rule on the number of id fields: a model has exactly one, unless
    /// it is a relation model.
    pub fn validate_model_has_id(&self, ast_model: &ast::Model, model: &dml::Model) -> (result:
        Result<(), ValidationError>)
        ensures
            match result {
                Ok(()) => id_count_error(ast_model, model) is None,
                Err(e) => id_count_error(ast_model, model) == Some(e@),
            },
    {
        if model.is_relation_model() {
            return Ok(());
        }
        if model.count_id_fields() == 1 {
            Ok(())
        } else {
            Err(
                ValidationError::new_model_validation_error(
                    MISSING_ID,
                    model.name.as_str(),
                    ast_model.span,
                ),
            )
        }
    }

    /// Whether a field has one of the three shapes allowed for an id.
    fn is_valid_id(field: &dml::Field) -> (valid: bool)
        ensures
            valid == is_valid_id_field(field),
    {
        if field.arity != dml::FieldArity::Required {
            return false;
        }
        match &field.default_value {
            None => match &field.field_type {
                dml::FieldType::Base(scalar) => *scalar == dml::ScalarType::Int,
                _ => false,
            },
            Some(dml::Value::Expression(name, return_type, args)) => {
                let is_string = match &field.field_type {
                    dml::FieldType::Base(scalar) => *scalar == dml::ScalarType::String,
                    _ => false,
                };
                let name_eq = str_eq(name.as_str(), "cuid") || str_eq(name.as_str(), "uuid");
                let type_eq = *return_type == dml::ScalarType::String;
                let args_eq = args.len() == 0;
                is_string && name_eq && type_eq && args_eq
            },
            Some(_) => false,
        }
    }

    /// The diagnostic `message` about `model`, placed at its field `field`.
    fn error_at(
        ast_schema: &ast::Datamodel,
        message: &str,
        model: &dml::Model,
        field: &dml::Field,
    ) -> (error: ValidationError)
        ensures
            error@ == error_at_field(ast_schema, message@, model.name@, field.name@),
    {
        match ast_schema.find_field(model.name.as_str(), field.name.as_str()) {
            Some(ast_field) => ValidationError::new_model_validation_error(
                message,
                model.name.as_str(),
                ast_field.span,
            ),
            None => ValidationError::new_state_error(STATE_ERROR),
        }
    }

    /// The rule on the shape of id fields.
    pub fn validate_id_fields_valid(&self, ast_schema: &ast::Datamodel, model: &dml::Model) -> (result:
        Result<(), ValidationError>)
        ensures
            match result {
                Ok(()) => id_shape_error(ast_schema, model) is None,
                Err(e) => id_shape_error(ast_schema, model) == Some(e@),
            },
    {
        let ghost invalid = |i: int| is_invalid_id_at(model, i);
        let mut i: usize = 0;
        while i < model.fields.len()
            invariant
                i <= model.fields@.len(),
                invalid == (|i: int| is_invalid_id_at(model, i)),
                forall|j: int| 0 <= j < i ==> !#[trigger] invalid(j),
            decreases model.fields@.len() - i,
        {
            let field = &model.fields[i];
            if field.is_id && !Self::is_valid_id(field) {
                proof {
                    assert(invalid(i as int));
                    lemma_first_where_is(model.fields@.len() as int, invalid, i as int);
                }
                return Err(Self::error_at(ast_schema, INVALID_ID, model, field));
            }
            i += 1;
        }
        proof {
            lemma_first_where(model.fields@.len() as int, invalid);
        }
        Ok(())
    }

    /// What the rule on embedded models finds at one field.
    fn check_embedded_field(
        ast_schema: &ast::Datamodel,
        datamodel: &dml::Datamodel,
        model: &dml::Model,
        i: usize,
    ) -> (result: Result<(), ValidationError>)
        requires
            i < model.fields@.len(),
        ensures
            match result {
                Ok(()) => embedded_error_at(ast_schema, datamodel, model, i as int) is None,
                Err(e) => embedded_error_at(ast_schema, datamodel, model, i as int) == Some(e@),
            },
    {
        let field = &model.fields[i];
        if field.is_generated {
            return Ok(());
        }
        if let dml::FieldType::Relation(rel) = &field.field_type {
            let related = match datamodel.find_model(rel.to.as_str()) {
                Some(related) => related,
                None => {
                    return Err(ValidationError::new_state_error(STATE_ERROR));
                },
            };
            let related_field = match related.related_field(
                model.name.as_str(),
                rel.name.as_str(),
                field.name.as_str(),
            ) {
                Some(related_field) => related_field,
                None => {
                    return Err(ValidationError::new_state_error(STATE_ERROR));
                },
            };
            if rel.to_fields.len() == 0 && !related_field.is_generated {
                return Err(Self::error_at(ast_schema, EMBEDDED_BACK_RELATION, model, field));
            }
        }
        Ok(())
    }

    /// The rule on embedded models: no field of an embedded model leads back
    /// to a model that refers to it.
    pub fn validate_embedded_types_have_no_back_relation(
        &self,
        ast_schema: &ast::Datamodel,
        datamodel: &dml::Datamodel,
        model: &dml::Model,
    ) -> (result: Result<(), ValidationError>)
        ensures
            match result {
                Ok(()) => embedded_error(ast_schema, datamodel, model) is None,
                Err(e) => embedded_error(ast_schema, datamodel, model) == Some(e@),
            },
    {
        if !model.is_embedded {
            return Ok(());
        }
        let ghost refused = |i: int| embedded_error_at(ast_schema, datamodel, model, i) is Some;
        let mut i: usize = 0;
        while i < model.fields.len()
            invariant
                model.is_embedded,
                i <= model.fields@.len(),
                refused == (|i: int| embedded_error_at(ast_schema, datamodel, model, i) is Some),
                forall|j: int| 0 <= j < i ==> !#[trigger] refused(j),
            decreases model.fields@.len() - i,
        {
            if let Err(e) = Self::check_embedded_field(ast_schema, datamodel, model, i) {
                proof {
                    assert(refused(i as int));
                    lemma_first_where_is(model.fields@.len() as int, refused, i as int);
                }
                return Err(e);
            }
            i += 1;
        }
        proof {
            lemma_first_where(model.fields@.len() as int, refused);
        }
        Ok(())
    }

    /// Whether a third field refers to `model` itself under the relation
    /// name that fields `a` and `b` share.
    fn has_third_endpoint(model: &dml::Model, a: usize, b: usize) -> (has: bool)
        requires
            a < model.fields@.len(),
            b < model.fields@.len(),
            model.fields@[a as int].field_type is Relation,
            model.fields@[b as int].field_type is Relation,
        ensures
            has == exists|c: int| is_third_endpoint(model, a as int, b as int, c),
    {
        let rel_a = match &model.fields[a].field_type {
            dml::FieldType::Relation(rel) => rel,
            _ => {
                return false;
            },
        };
        let rel_b = match &model.fields[b].field_type {
            dml::FieldType::Relation(rel) => rel,
            _ => {
                return false;
            },
        };
        let mut c: usize = 0;
        while c < model.fields.len()
            invariant
                c <= model.fields@.len(),
                a < model.fields@.len(),
                b < model.fields@.len(),
                model.fields@[a as int].field_type == dml::FieldType::Relation(*rel_a),
                model.fields@[b as int].field_type == dml::FieldType::Relation(*rel_b),
                forall|z: int| 0 <= z < c ==> !is_third_endpoint(model, a as int, b as int, z),
            decreases model.fields@.len() - c,
        {
            if c != a && c != b {
                if let dml::FieldType::Relation(rel_c) = &model.fields[c].field_type {
                    if str_eq(rel_c.to.as_str(), model.name.as_str()) && rel_a.name == rel_b.name
                        && rel_a.name == rel_c.name {
                        assert(is_third_endpoint(model, a as int, b as int, c as int));
                        return true;
                    }
                }
            }
            c += 1;
        }
        false
    }

    /// Whether the fields `a` and `b` cannot be told apart, and whether both
    /// refer to other models.
    fn check_pair(model: &dml::Model, a: usize, b: usize) -> (verdict: (bool, bool))
        requires
            a < model.fields@.len(),
            b < model.fields@.len(),
        ensures
            verdict.0 == is_ambiguous_pair(model, a as int, b as int),
            verdict.0 ==> verdict.1 == both_point_away(model, a as int, b as int),
    {
        if a == b {
            return (false, false);
        }
        if let dml::FieldType::Relation(rel_a) = &model.fields[a].field_type {
            if let dml::FieldType::Relation(rel_b) = &model.fields[b].field_type {
                if !str_eq(rel_a.to.as_str(), model.name.as_str()) && !str_eq(
                    rel_b.to.as_str(),
                    model.name.as_str(),
                ) {
                    return (rel_a.to == rel_b.to && rel_a.name == rel_b.name, true);
                } else {
                    return (Self::has_third_endpoint(model, a, b), false);
                }
            }
        }
        (false, false)
    }

    /// The rule on ambiguous relations: any two relation fields of a model
    /// can be told apart.
    pub fn validate_relations_not_ambiguous(
        &self,
        ast_schema: &ast::Datamodel,
        model: &dml::Model,
    ) -> (result: Result<(), ValidationError>)
        ensures
            match result {
                Ok(()) => ambiguity_error(ast_schema, model) is None,
                Err(e) => ambiguity_error(ast_schema, model) == Some(e@),
            },
    {
        let ghost len = model.fields@.len() as int;
        let ghost has_partner = |a: int| first_ambiguous_partner(model, a) is Some;
        let mut a: usize = 0;
        while a < model.fields.len()
            invariant
                a <= model.fields@.len(),
                len == model.fields@.len(),
                has_partner == (|a: int| first_ambiguous_partner(model, a) is Some),
                forall|x: int| 0 <= x < a ==> !#[trigger] has_partner(x),
            decreases model.fields@.len() - a,
        {
            let ghost partner = |b: int| is_ambiguous_pair(model, a as int, b);
            let mut b: usize = 0;
            while b < model.fields.len()
                invariant
                    a < model.fields@.len(),
                    b <= model.fields@.len(),
                    len == model.fields@.len(),
                    has_partner == (|a: int| first_ambiguous_partner(model, a) is Some),
                    partner == (|b: int| is_ambiguous_pair(model, a as int, b)),
                    forall|x: int| 0 <= x < a ==> !#[trigger] has_partner(x),
                    forall|y: int| 0 <= y < b ==> !#[trigger] partner(y),
                decreases model.fields@.len() - b,
            {
                let (ambiguous, away) = Self::check_pair(model, a, b);
                if ambiguous {
                    proof {
                        assert(partner(b as int));
                        lemma_first_where_is(len, partner, b as int);
                        assert(has_partner(a as int));
                        lemma_first_where_is(len, has_partner, a as int);
                    }
                    let message = if away {
                        AMBIGUOUS_RELATION
                    } else {
                        AMBIGUOUS_SELF_RELATION
                    };
                    return Err(Self::error_at(ast_schema, message, model, &model.fields[a]));
                }
                b += 1;
            }
            proof {
                lemma_first_where(len, partner);
                assert(!has_partner(a as int));
            }
            a += 1;
        }
        proof {
            lemma_first_where(len, has_partner);
        }
        Ok(())
    }
}

/// What the rules find in one model is part of what they find in the first
/// `n` models, for every `n` beyond that model.
proof fn lemma_model_errors_are_kept(
    ast_schema: &ast::Datamodel,
    datamodel: &dml::Datamodel,
    k: int,
    n: nat,
    error: ErrorView,
)
    requires
        0 <= k < n <= datamodel.models@.len(),
        model_errors(ast_schema, datamodel, &datamodel.models@[k]).contains(error),
    ensures
        errors_of_first(ast_schema, datamodel, n).contains(error),
    decreases n,
{
    let before = errors_of_first(ast_schema, datamodel, (n - 1) as nat);
    let last = model_errors(ast_schema, datamodel, &datamodel.models@[n - 1]);
    if k == n - 1 {
        let i = choose|i: int| 0 <= i < last.len() && last[i] == error;
        assert((before + last)[before.len() + i] == error);
    } else {
        lemma_model_errors_are_kept(ast_schema, datamodel, k, (n - 1) as nat, error);
        let i = choose|i: int| 0 <= i < before.len() && before[i] == error;
        assert((before + last)[i] == error);
    }
}

/// Validation is complete: whatever rule a model of the datamodel breaks,
/// the diagnostic of that rule for that model is among those that
/// validation returns.
///
/// A model without exactly one id field that is no relation model, an id
/// field of a shape that is not allowed, two relation fields that cannot be
/// told apart, and a field of an embedded model that the rule on embedded
/// models refuses, each give their diagnostic.
pub proof fn lemma_validation_is_complete(
    ast_schema: &ast::Datamodel,
    datamodel: &dml::Datamodel,
    k: int,
)
    requires
        0 <= k < datamodel.models@.len(),
    ensures
        ({
            let model = &datamodel.models@[k];
            let all = validation_errors(ast_schema, datamodel);
            &&& !has_id(model) ==> model_id_count_error(ast_schema, model) is Some && all.contains(
                model_id_count_error(ast_schema, model)->0,
            )
            &&& (exists|i: int| 0 <= i < model.fields@.len() && is_invalid_id_at(model, i))
                ==> id_shape_error(ast_schema, model) is Some && all.contains(
                id_shape_error(ast_schema, model)->0,
            )
            &&& (exists|a: int, b: int|
                0 <= a < model.fields@.len() && 0 <= b < model.fields@.len() && is_ambiguous_pair(
                    model,
                    a,
                    b,
                )) ==> ambiguity_error(ast_schema, model) is Some && all.contains(
                ambiguity_error(ast_schema, model)->0,
            )
            &&& (model.is_embedded && exists|i: int|
                0 <= i < model.fields@.len() && embedded_error_at(
                    ast_schema,
                    datamodel,
                    model,
                    i,
                ) is Some) ==> embedded_error(ast_schema, datamodel, model) is Some
                && all.contains(embedded_error(ast_schema, datamodel, model)->0)
        }),
{
    let model = &datamodel.models@[k];
    let len = model.fields@.len() as int;
    let n = datamodel.models@.len();
    let first = found(model_id_count_error(ast_schema, model));
    let second = found(id_shape_error(ast_schema, model));
    let third = found(ambiguity_error(ast_schema, model));
    let fourth = found(embedded_error(ast_schema, datamodel, model));
    let errors = model_errors(ast_schema, datamodel, model);
    assert(errors == first + second + third + fourth);
    if !has_id(model) {
        let e = model_id_count_error(ast_schema, model)->0;
        assert(errors[0] == e);
        lemma_model_errors_are_kept(ast_schema, datamodel, k, n, e);
    }
    if exists|i: int| 0 <= i < len && is_invalid_id_at(model, i) {
        let invalid = |i: int| is_invalid_id_at(model, i);
        let i = choose|i: int| 0 <= i < len && is_invalid_id_at(model, i);
        assert(invalid(i));
        lemma_first_where(len, invalid);
        let e = id_shape_error(ast_schema, model)->0;
        assert(errors[first.len() as int] == e);
        lemma_model_errors_are_kept(ast_schema, datamodel, k, n, e);
    }
    if exists|a: int, b: int| 0 <= a < len && 0 <= b < len && is_ambiguous_pair(model, a, b) {
        let (a, b) = choose|a: int, b: int|
            0 <= a < len && 0 <= b < len && is_ambiguous_pair(model, a, b);
        let partner = |b: int| is_ambiguous_pair(model, a, b);
        let has_partner = |a: int| first_ambiguous_partner(model, a) is Some;
        assert(partner(b));
        lemma_first_where(len, partner);
        assert(has_partner(a));
        lemma_first_where(len, has_partner);
        let e = ambiguity_error(ast_schema, model)->0;
        assert(errors[(first.len() + second.len()) as int] == e);
        lemma_model_errors_are_kept(ast_schema, datamodel, k, n, e);
    }
    if model.is_embedded && exists|i: int|
        0 <= i < len && embedded_error_at(ast_schema, datamodel, model, i) is Some {
        let refused = |i: int| embedded_error_at(ast_schema, datamodel, model, i) is Some;
        let i = choose|i: int|
            0 <= i < len && embedded_error_at(ast_schema, datamodel, model, i) is Some;
        assert(refused(i));
        lemma_first_where(len, refused);
        let e = embedded_error(ast_schema, datamodel, model)->0;
        assert(errors[(first.len() + second.len() + third.len()) as int] == e);
        lemma_model_errors_are_kept(ast_schema, datamodel, k, n, e);
    }
}

/// Validation is sound: it returns no diagnostic for a datamodel all of
/// whose models keep all four rules.
pub proof fn lemma_validation_is_sound(ast_schema: &ast::Datamodel, datamodel: &dml::Datamodel)
    requires
        forall|k: int|
            0 <= k < datamodel.models@.len() ==> (#[trigger] model_errors(
                ast_schema,
                datamodel,
                &datamodel.models@[k],
            )).len() == 0,
    ensures
        validation_errors(ast_schema, datamodel).len() == 0,
{
    lemma_no_errors_in_first(ast_schema, datamodel, datamodel.models@.len());
}

/// Where no model breaks a rule, the first `n` models give no diagnostic.
proof fn lemma_no_errors_in_first(
    ast_schema: &ast::Datamodel,
    datamodel: &dml::Datamodel,
    n: nat,
)
    requires
        n <= datamodel.models@.len(),
        forall|k: int|
            0 <= k < datamodel.models@.len() ==> (#[trigger] model_errors(
                ast_schema,
                datamodel,
                &datamodel.models@[k],
            )).len() == 0,
    ensures
        errors_of_first(ast_schema, datamodel, n).len() == 0,
    decreases n,
{
    if n > 0 {
        lemma_no_errors_in_first(ast_schema, datamodel, (n - 1) as nat);
        assert(model_errors(ast_schema, datamodel, &datamodel.models@[n - 1]).len() == 0);
    }
}

} // verus!
