//! From the datamodel to the internal data model.
//!
//! Every model is converted field by field. A relation is made once, from
//! the endpoint on its side A, and says where it is stored: in a table of
//! its own if both endpoints are lists, and else in a column of the table
//! of one of its models.

use crate::dml;
use crate::dml::{FieldArity, FieldType, OnDeleteStrategy, ScalarType};
use crate::errors::{ErrorView, ValidationError};
use crate::idm::{
    Field, FieldBehaviour, FieldBehaviourView, FieldManifestation, FieldView, IdStrategy,
    InlineRelation, InternalDataModel, InternalDataModelView, InternalEnum, InternalEnumView,
    ManifestationView, Model, ModelManifestation, ModelView, OnDelete, Relation, RelationField,
    RelationFieldView, RelationLinkManifestation, RelationSide, RelationTable, RelationView,
    ScalarField, ScalarFieldView, ScalarListStrategy, TypeIdentifier,
};
use crate::order::{in_order, order_of};
use crate::text::{owned, precedes, str_eq, str_precedes};
use crate::validator::directive::field::copy_names;
use vstd::prelude::*;
use vstd::string::*;
use vstd::utf8::encode_utf8;

verus! {

/// The message for a datamodel that cannot be converted.
pub const NOT_CONVERTIBLE: &'static str =
    "The datamodel refers to an enum, a model or a second endpoint of a relation that it does not hold.";

/// The model that `field`, a field of `model`, refers to, and the field
/// there that leads back.
pub open spec fn companion(datamodel: &dml::Datamodel, model: &dml::Model, field: &dml::Field) -> Option<
    (dml::Model, dml::Field),
> {
    match field.field_type {
        FieldType::Relation(info) => match datamodel.spec_find_model(info.to@) {
            Some(related) => match related.spec_related_field(
                model.name@,
                info.name@,
                field.name@,
            ) {
                Some(back) => Some((related, back)),
                None => None,
            },
            None => None,
        },
        _ => None,
    }
}

/// Whether `field`, a field of `model`, can be converted: its enum is part
/// of `datamodel`, or the model it refers to is, with a field that leads
/// back.
pub open spec fn field_is_convertible(
    datamodel: &dml::Datamodel,
    model: &dml::Model,
    field: &dml::Field,
) -> bool {
    match field.field_type {
        FieldType::Relation(_) => companion(datamodel, model, field) is Some,
        FieldType::Enum(name) => datamodel.has_enum(name@),
        FieldType::Base(_) => true,
    }
}

/// Whether all fields of `model` can be converted.
pub open spec fn model_is_convertible(datamodel: &dml::Datamodel, model: &dml::Model) -> bool {
    forall|j: int|
        0 <= j < model.fields@.len() ==> field_is_convertible(
            datamodel,
            model,
            #[trigger] &model.fields@[j],
        )
}

/// Whether `datamodel` can be converted: all fields of all its models can.
pub open spec fn is_convertible(datamodel: &dml::Datamodel) -> bool {
    forall|i: int|
        0 <= i < datamodel.models@.len() ==> model_is_convertible(
            datamodel,
            #[trigger] &datamodel.models@[i],
        )
}

/// Whether the default value of `field` is a call of `name`.
pub open spec fn defaults_to_call(field: &dml::Field, name: Seq<char>) -> bool {
    field.default_value matches Some(dml::Value::Expression(called, _, _)) && called@ == name
}

/// The type of the values of a scalar or enum field. The text of an id is
/// an id of its own kind if it comes from `cuid` or `uuid`.
pub open spec fn type_identifier_of(field: &dml::Field) -> TypeIdentifier {
    match field.field_type {
        FieldType::Base(scalar) => match scalar {
            ScalarType::Int => TypeIdentifier::Int,
            ScalarType::Float => TypeIdentifier::Float,
            ScalarType::Decimal => TypeIdentifier::Float,
            ScalarType::Boolean => TypeIdentifier::Boolean,
            ScalarType::DateTime => TypeIdentifier::DateTime,
            ScalarType::Json => TypeIdentifier::Json,
            ScalarType::Bytes => TypeIdentifier::String,
            ScalarType::String => if field.is_id && defaults_to_call(field, "cuid"@) {
                TypeIdentifier::GraphQLID
            } else if field.is_id && defaults_to_call(field, "uuid"@) {
                TypeIdentifier::UUID
            } else {
                TypeIdentifier::String
            },
        },
        FieldType::Enum(_) => TypeIdentifier::Enum,
        FieldType::Relation(_) => TypeIdentifier::Relation,
    }
}

/// What sets a scalar or enum field apart: that it is an id, else that it
/// is a list, else that it holds the time of creation or of the last
/// change.
pub open spec fn behaviour_of(field: &dml::Field) -> Option<FieldBehaviourView> {
    if field.is_id {
        Some(FieldBehaviourView::Id { strategy: IdStrategy::Auto, sequence: None })
    } else if field.arity == FieldArity::List {
        Some(FieldBehaviourView::ScalarList { strategy: ScalarListStrategy::Relation })
    } else if field.is_created_at {
        Some(FieldBehaviourView::CreatedAt)
    } else if field.is_updated_at {
        Some(FieldBehaviourView::UpdatedAt)
    } else {
        None
    }
}

/// The enum `en`, converted.
pub open spec fn converted_enum(en: &dml::Enum) -> InternalEnumView {
    InternalEnumView { name: en.name@, values: en.values.deep_view() }
}

/// The first enum of `datamodel` called `name`, converted.
pub open spec fn enum_named(datamodel: &dml::Datamodel, name: Seq<char>) -> Option<
    InternalEnumView,
> {
    match crate::first::first_where(
        datamodel.enums@.len() as int,
        |i: int| datamodel.enums@[i].name@ == name,
    ) {
        Some(i) => Some(converted_enum(&datamodel.enums@[i])),
        None => None,
    }
}

/// The scalar or enum field `field`, converted. An id of type `Int` is
/// generated by the database.
pub open spec fn converted_scalar(datamodel: &dml::Datamodel, field: &dml::Field) -> ScalarFieldView {
    ScalarFieldView {
        name: field.name@,
        type_identifier: type_identifier_of(field),
        is_required: field.arity == FieldArity::Required,
        is_list: field.arity == FieldArity::List,
        is_unique: field.is_unique,
        is_auto_generated: field.is_id && field.field_type == FieldType::Base(ScalarType::Int),
        db_name: field.database_name.deep_view(),
        behaviour: behaviour_of(field),
        internal_enum: match field.field_type {
            FieldType::Enum(name) => enum_named(datamodel, name@),
            _ => None,
        },
    }
}

/// Whether the endpoint `field` of `model` stands on side A of its
/// relation, where `back` is the other endpoint: the model of side A does
/// not stand after the other model in the order of texts, and in a relation
/// of a model to itself the field of side A does not stand after the other
/// field.
pub open spec fn is_side_a(model: &dml::Model, field: &dml::Field, back: &dml::Field) -> bool {
    match field.field_type {
        FieldType::Relation(info) => if model.name@ == info.to@ {
            precedes(encode_utf8(field.name@), encode_utf8(back.name@))
        } else {
            precedes(encode_utf8(model.name@), encode_utf8(info.to@))
        },
        _ => true,
    }
}

/// The side of its relation that the endpoint `field` of `model` stands on.
pub open spec fn side_of(datamodel: &dml::Datamodel, model: &dml::Model, field: &dml::Field) -> RelationSide {
    match companion(datamodel, model, field) {
        Some((_, back)) => if is_side_a(model, field, &back) {
            RelationSide::A
        } else {
            RelationSide::B
        },
        None => RelationSide::A,
    }
}

/// The relation field `field` of `model`, converted.
pub open spec fn converted_relation_field(
    datamodel: &dml::Datamodel,
    model: &dml::Model,
    field: &dml::Field,
) -> RelationFieldView {
    RelationFieldView {
        name: field.name@,
        is_required: field.arity == FieldArity::Required,
        is_list: field.arity == FieldArity::List,
        is_unique: field.is_unique,
        is_auto_generated: false,
        relation_name: match field.field_type {
            FieldType::Relation(info) => info.name@,
            _ => Seq::empty(),
        },
        relation_side: side_of(datamodel, model, field),
    }
}

/// The field `field` of `model`, converted.
pub open spec fn converted_field(
    datamodel: &dml::Datamodel,
    model: &dml::Model,
    field: &dml::Field,
) -> FieldView {
    match field.field_type {
        FieldType::Relation(_) => FieldView::Relation(
            converted_relation_field(datamodel, model, field),
        ),
        _ => FieldView::Scalar(converted_scalar(datamodel, field)),
    }
}

/// The model `model`, converted.
pub open spec fn converted_model(datamodel: &dml::Datamodel, model: &dml::Model) -> ModelView {
    ModelView {
        name: model.name@,
        is_embedded: model.is_embedded,
        fields: Seq::new(
            model.fields@.len(),
            |j: int| converted_field(datamodel, model, &model.fields@[j]),
        ),
        db_name: model.database_name.deep_view(),
    }
}

/// The column of a field: its mapped name, or else its own.
pub open spec fn column_of(field: &dml::Field) -> Seq<char> {
    match field.database_name {
        Some(name) => name@,
        None => field.name@,
    }
}

/// Whether an endpoint refers to fields of the other model.
pub open spec fn declares_references(field: &dml::Field) -> bool {
    field.field_type matches FieldType::Relation(info) && info.to_fields@.len() > 0
}

/// Whether, of the two endpoints of a relation that is stored in a column,
/// the one on side A holds the column. An endpoint that is a list holds
/// none. Of two single endpoints the one holds it that alone refers to
/// fields of the other model, and else the one on side B, whose model or
/// field stands later in the order of texts.
pub open spec fn side_a_holds_column(a: &dml::Field, b: &dml::Field) -> bool {
    if a.arity == FieldArity::List {
        false
    } else if b.arity == FieldArity::List {
        true
    } else {
        declares_references(a) && !declares_references(b)
    }
}

/// How the relation `name` is stored whose endpoint on side A is the field
/// `a` of the model `model_a` and whose endpoint on side B is the field `b`
/// of the model `model_b`.
pub open spec fn manifestation_of(
    name: Seq<char>,
    model_a: &dml::Model,
    a: &dml::Field,
    model_b: &dml::Model,
    b: &dml::Field,
) -> ManifestationView {
    if a.arity == FieldArity::List && b.arity == FieldArity::List {
        ManifestationView::RelationTable {
            table: "_"@ + name,
            model_a_column: "A"@,
            model_b_column: "B"@,
            id_column: None,
        }
    } else if side_a_holds_column(a, b) {
        ManifestationView::Inline {
            in_table_of_model_name: model_a.name@,
            referencing_column: column_of(a),
        }
    } else {
        ManifestationView::Inline {
            in_table_of_model_name: model_b.name@,
            referencing_column: column_of(b),
        }
    }
}

/// What happens on deletion, as the internal data model says it.
pub open spec fn converted_on_delete(field: &dml::Field) -> OnDelete {
    match field.field_type {
        FieldType::Relation(info) => if info.on_delete == OnDeleteStrategy::Cascade {
            OnDelete::Cascade
        } else {
            OnDelete::SetNull
        },
        _ => OnDelete::SetNull,
    }
}

/// The relation whose endpoint on side A is the field `a` of the model
/// `model_a` and whose endpoint on side B is the field `b` of the model
/// `model_b`.
pub open spec fn relation_between(
    model_a: &dml::Model,
    a: &dml::Field,
    model_b: &dml::Model,
    b: &dml::Field,
) -> RelationView {
    let name = match a.field_type {
        FieldType::Relation(info) => info.name@,
        _ => Seq::empty(),
    };
    RelationView {
        name,
        model_a_name: model_a.name@,
        model_b_name: model_b.name@,
        model_a_on_delete: converted_on_delete(a),
        model_b_on_delete: converted_on_delete(b),
        manifestation: Some(manifestation_of(name, model_a, a, model_b, b)),
    }
}

/// The relation that is made from `field`, a field of `model`: one if it is
/// the endpoint on side A of a relation, and else none.
pub open spec fn relation_from(datamodel: &dml::Datamodel, model: &dml::Model, field: &dml::Field) -> Seq<
    RelationView,
> {
    match companion(datamodel, model, field) {
        Some((related, back)) => if is_side_a(model, field, &back) {
            seq![relation_between(model, field, &related, &back)]
        } else {
            Seq::empty()
        },
        None => Seq::empty(),
    }
}

/// The relations that are made from the first `n` fields of `model`.
pub open spec fn relations_in_fields(datamodel: &dml::Datamodel, model: &dml::Model, n: nat) -> Seq<
    RelationView,
>
    decreases n,
{
    if n == 0 {
        Seq::empty()
    } else {
        relations_in_fields(datamodel, model, (n - 1) as nat) + relation_from(
            datamodel,
            model,
            &model.fields@[n - 1],
        )
    }
}

/// The relations that are made from the fields of the first `n` models of
/// `datamodel`.
pub open spec fn relations_in_models(datamodel: &dml::Datamodel, n: nat) -> Seq<RelationView>
    decreases n,
{
    if n == 0 {
        Seq::empty()
    } else {
        relations_in_models(datamodel, (n - 1) as nat) + relations_in_fields(
            datamodel,
            &datamodel.models@[n - 1],
            datamodel.models@[n - 1].fields@.len(),
        )
    }
}

/// The relations of `datamodel`, in the order of their names; relations of
/// the same name in the order in which their endpoints on side A are
/// declared.
pub open spec fn converted_relations(datamodel: &dml::Datamodel) -> Seq<RelationView> {
    let declared = relations_in_models(datamodel, datamodel.models@.len());
    in_order(declared, Seq::new(declared.len(), |i: int| declared[i].name))
}

/// The internal data model that `datamodel` is converted to: its models and
/// enums as they are declared, and its relations.
pub open spec fn converted(datamodel: &dml::Datamodel) -> InternalDataModelView {
    InternalDataModelView {
        models: Seq::new(
            datamodel.models@.len(),
            |i: int| converted_model(datamodel, &datamodel.models@[i]),
        ),
        enums: Seq::new(datamodel.enums@.len(), |i: int| converted_enum(&datamodel.enums@[i])),
        relations: converted_relations(datamodel),
    }
}

/// Whether the relation of `field`, a field of `model` with the
/// counterpart `back`, is stored in the column of `field`: the relation is
/// stored in a column, and the side of `field` holds it.
pub open spec fn is_stored_with(model: &dml::Model, field: &dml::Field, back: &dml::Field) -> bool {
    &&& !(field.arity == FieldArity::List && back.arity == FieldArity::List)
    &&& if is_side_a(model, field, back) {
        side_a_holds_column(field, back)
    } else {
        !side_a_holds_column(back, field)
    }
}

/// How the relation of `field`, a field of `model` with the counterpart
/// `back` in the model `related`, is stored, whichever of the two
/// endpoints stands on side A.
pub open spec fn manifestation_at(
    model: &dml::Model,
    field: &dml::Field,
    related: &dml::Model,
    back: &dml::Field,
) -> ManifestationView {
    let name = field.field_type->Relation_0.name@;
    if is_side_a(model, field, back) {
        manifestation_of(name, model, field, related, back)
    } else {
        manifestation_of(name, related, back, model, field)
    }
}

/// A relation that is stored in a column names the model and the column of
/// the endpoint that it is stored with.
pub proof fn lemma_manifestation_names_holder(
    model: &dml::Model,
    field: &dml::Field,
    related: &dml::Model,
    back: &dml::Field,
)
    requires
        field.field_type is Relation,
        !(field.arity == FieldArity::List && back.arity == FieldArity::List),
    ensures
        manifestation_at(model, field, related, back) == if is_stored_with(model, field, back) {
            ManifestationView::Inline {
                in_table_of_model_name: model.name@,
                referencing_column: column_of(field),
            }
        } else {
            ManifestationView::Inline {
                in_table_of_model_name: related.name@,
                referencing_column: column_of(back),
            }
        },
{
}

/// Where the reference of a relation of an embedded model stands.
///
/// Let field `j` of `model` be a relation field of an embedded model that
/// passes the rule on embedded models, written by the user like the field
/// that leads back to it. Then the field refers to fields of the other
/// model. Its relation is stored in its column exactly if it is no list,
/// and the field that leads back is a list, or refers to no fields, or
/// stands on side A.
pub proof fn lemma_embedded_reference(
    ast_schema: &crate::ast::Datamodel,
    datamodel: &dml::Datamodel,
    model: &dml::Model,
    j: int,
)
    requires
        model.is_embedded,
        crate::validator::validate::embedded_error(ast_schema, datamodel, model) is None,
        0 <= j < model.fields@.len(),
        !model.fields@[j].is_generated,
        companion(datamodel, model, &model.fields@[j]) matches Some((_, back))
            && !back.is_generated,
    ensures
        ({
            let field = &model.fields@[j];
            let (_, back) = companion(datamodel, model, field)->0;
            &&& declares_references(field)
            &&& is_stored_with(model, field, &back) <==> field.arity != FieldArity::List && (
            back.arity == FieldArity::List || !declares_references(&back) || !is_side_a(
                model,
                field,
                &back,
            ))
        }),
{
    let refused = |i: int|
        crate::validator::validate::embedded_error_at(ast_schema, datamodel, model, i) is Some;
    crate::first::lemma_first_where(model.fields@.len() as int, refused);
    assert(!refused(j));
}

/// Converts datamodels to internal data models.
pub struct DatamodelConverter {}

/// The enum `en`, converted.
fn convert_enum(en: &dml::Enum) -> (converted: InternalEnum)
    ensures
        converted@ == converted_enum(en),
{
    InternalEnum { name: en.name.clone(), values: copy_names(&en.values) }
}

/// The first enum of `datamodel` called `name`, converted.
fn find_enum(datamodel: &dml::Datamodel, name: &str) -> (found: Option<InternalEnum>)
    ensures
        found is Some <==> datamodel.has_enum(name@),
        match found {
            Some(en) => enum_named(datamodel, name@) == Some(en@),
            None => enum_named(datamodel, name@) is None,
        },
{
    let ghost named = |i: int| datamodel.enums@[i].name@ == name@;
    let mut i: usize = 0;
    while i < datamodel.enums.len()
        invariant
            i <= datamodel.enums@.len(),
            named == (|i: int| datamodel.enums@[i].name@ == name@),
            forall|j: int| 0 <= j < i ==> !#[trigger] named(j),
            forall|j: int| 0 <= j < i ==> (#[trigger] datamodel.enums@[j]).name@ != name@,
        decreases datamodel.enums@.len() - i,
    {
        if str_eq(datamodel.enums[i].name.as_str(), name) {
            proof {
                assert(named(i as int));
                crate::first::lemma_first_where_is(datamodel.enums@.len() as int, named, i as int);
            }
            return Some(convert_enum(&datamodel.enums[i]));
        }
        assert(!named(i as int));
        i += 1;
    }
    proof {
        crate::first::lemma_first_where(datamodel.enums@.len() as int, named);
    }
    None
}

/// Whether the default value of `field` is a call of `name`.
fn is_call_of(field: &dml::Field, name: &str) -> (is: bool)
    ensures
        is == defaults_to_call(field, name@),
{
    match &field.default_value {
        Some(dml::Value::Expression(called, _, _)) => str_eq(called.as_str(), name),
        _ => false,
    }
}

/// The type of the values of a scalar or enum field.
fn type_identifier(field: &dml::Field) -> (identifier: TypeIdentifier)
    ensures
        identifier == type_identifier_of(field),
{
    match &field.field_type {
        FieldType::Base(scalar) => match scalar {
            ScalarType::Int => TypeIdentifier::Int,
            ScalarType::Float => TypeIdentifier::Float,
            ScalarType::Decimal => TypeIdentifier::Float,
            ScalarType::Boolean => TypeIdentifier::Boolean,
            ScalarType::DateTime => TypeIdentifier::DateTime,
            ScalarType::Json => TypeIdentifier::Json,
            ScalarType::Bytes => TypeIdentifier::String,
            ScalarType::String => {
                if field.is_id && is_call_of(field, "cuid") {
                    TypeIdentifier::GraphQLID
                } else if field.is_id && is_call_of(field, "uuid") {
                    TypeIdentifier::UUID
                } else {
                    TypeIdentifier::String
                }
            },
        },
        FieldType::Enum(_) => TypeIdentifier::Enum,
        FieldType::Relation(_) => TypeIdentifier::Relation,
    }
}

/// The scalar or enum field `field`, converted; nothing if its enum is not
/// part of `datamodel`.
fn convert_scalar(datamodel: &dml::Datamodel, model: &dml::Model, field: &dml::Field) -> (converted:
    Option<ScalarField>)
    requires
        !(field.field_type is Relation),
    ensures
        converted is Some <==> field_is_convertible(datamodel, model, field),
        converted matches Some(scalar) ==> scalar@ == converted_scalar(datamodel, field),
{
    let internal_enum = match &field.field_type {
        FieldType::Enum(name) => match find_enum(datamodel, name.as_str()) {
            Some(en) => Some(en),
            None => {
                return None;
            },
        },
        _ => None,
    };
    let behaviour = if field.is_id {
        Some(FieldBehaviour::Id { strategy: IdStrategy::Auto, sequence: None })
    } else if field.arity == FieldArity::List {
        Some(FieldBehaviour::ScalarList { strategy: ScalarListStrategy::Relation })
    } else if field.is_created_at {
        Some(FieldBehaviour::CreatedAt)
    } else if field.is_updated_at {
        Some(FieldBehaviour::UpdatedAt)
    } else {
        None
    };
    let is_int = match &field.field_type {
        FieldType::Base(scalar) => *scalar == ScalarType::Int,
        _ => false,
    };
    Some(
        ScalarField {
            name: field.name.clone(),
            type_identifier: type_identifier(field),
            is_required: field.arity == FieldArity::Required,
            is_list: field.arity == FieldArity::List,
            is_unique: field.is_unique,
            is_auto_generated: field.is_id && is_int,
            manifestation: match &field.database_name {
                Some(name) => Some(FieldManifestation { db_name: name.clone() }),
                None => None,
            },
            behaviour,
            internal_enum,
        },
    )
}

/// The model that `field`, a field of `model`, refers to, and the field
/// there that leads back, see [`companion`].
pub fn find_companion<'a>(datamodel: &'a dml::Datamodel, model: &dml::Model, field: &dml::Field) -> (found:
    Option<(&'a dml::Model, &'a dml::Field)>)
    ensures
        match found {
            Some((related, back)) => companion(datamodel, model, field) == Some(
                (*related, *back),
            ),
            None => companion(datamodel, model, field) is None,
        },
{
    if let FieldType::Relation(info) = &field.field_type {
        if let Some(related) = datamodel.find_model(info.to.as_str()) {
            if let Some(back) = related.related_field(
                model.name.as_str(),
                info.name.as_str(),
                field.name.as_str(),
            ) {
                return Some((related, back));
            }
        }
    }
    None
}

/// Whether the endpoint `field` of `model` stands on side A, see
/// [`is_side_a`].
pub fn stands_on_side_a(model: &dml::Model, field: &dml::Field, back: &dml::Field) -> (is: bool)
    ensures
        is == is_side_a(model, field, back),
{
    match &field.field_type {
        FieldType::Relation(info) => {
            if str_eq(model.name.as_str(), info.to.as_str()) {
                str_precedes(field.name.as_str(), back.name.as_str())
            } else {
                str_precedes(model.name.as_str(), info.to.as_str())
            }
        },
        _ => true,
    }
}

/// The field `field` of `model`, converted; nothing if it cannot be
/// converted.
fn convert_field(datamodel: &dml::Datamodel, model: &dml::Model, field: &dml::Field) -> (converted:
    Option<Field>)
    ensures
        converted is Some <==> field_is_convertible(datamodel, model, field),
        converted matches Some(f) ==> f@ == converted_field(datamodel, model, field),
{
    match &field.field_type {
        FieldType::Relation(info) => {
            let side = match find_companion(datamodel, model, field) {
                Some((_, back)) => {
                    if stands_on_side_a(model, field, back) {
                        RelationSide::A
                    } else {
                        RelationSide::B
                    }
                },
                None => {
                    return None;
                },
            };
            Some(
                Field::Relation(
                    RelationField {
                        name: field.name.clone(),
                        type_identifier: TypeIdentifier::Relation,
                        is_required: field.arity == FieldArity::Required,
                        is_list: field.arity == FieldArity::List,
                        is_unique: field.is_unique,
                        is_auto_generated: false,
                        relation_name: info.name.clone(),
                        relation_side: side,
                    },
                ),
            )
        },
        _ => match convert_scalar(datamodel, model, field) {
            Some(scalar) => Some(Field::Scalar(scalar)),
            None => None,
        },
    }
}

/// The model `model`, converted; nothing if one of its fields cannot be
/// converted.
fn convert_model(datamodel: &dml::Datamodel, model: &dml::Model) -> (converted: Option<Model>)
    ensures
        converted is Some <==> model_is_convertible(datamodel, model),
        converted matches Some(m) ==> m@ == converted_model(datamodel, model),
{
    let mut fields: Vec<Field> = Vec::new();
    let mut j: usize = 0;
    while j < model.fields.len()
        invariant
            j <= model.fields@.len(),
            fields@.len() == j,
            forall|k: int|
                0 <= k < j ==> field_is_convertible(datamodel, model, #[trigger] &model.fields@[k]),
            forall|k: int|
                0 <= k < j ==> (#[trigger] fields@[k])@ == converted_field(
                    datamodel,
                    model,
                    &model.fields@[k],
                ),
        decreases model.fields@.len() - j,
    {
        match convert_field(datamodel, model, &model.fields[j]) {
            Some(field) => {
                fields.push(field);
            },
            None => {
                assert(!field_is_convertible(datamodel, model, &model.fields@[j as int]));
                return None;
            },
        }
        j += 1;
    }
    let converted = Model {
        name: model.name.clone(),
        is_embedded: model.is_embedded,
        fields,
        manifestation: match &model.database_name {
            Some(name) => Some(ModelManifestation { db_name: name.clone() }),
            None => None,
        },
    };
    assert(converted@.fields =~= converted_model(datamodel, model).fields);
    Some(converted)
}

/// The column of a field, see [`column_of`].
fn column(field: &dml::Field) -> (name: String)
    ensures
        name@ == column_of(field),
{
    match &field.database_name {
        Some(name) => name.clone(),
        None => field.name.clone(),
    }
}

/// Whether an endpoint refers to fields of the other model.
fn has_references(field: &dml::Field) -> (has: bool)
    ensures
        has == declares_references(field),
{
    match &field.field_type {
        FieldType::Relation(info) => info.to_fields.len() > 0,
        _ => false,
    }
}

/// What happens on deletion, see [`converted_on_delete`].
fn convert_on_delete(field: &dml::Field) -> (policy: OnDelete)
    ensures
        policy == converted_on_delete(field),
{
    match &field.field_type {
        FieldType::Relation(info) => {
            if info.on_delete == OnDeleteStrategy::Cascade {
                OnDelete::Cascade
            } else {
                OnDelete::SetNull
            }
        },
        _ => OnDelete::SetNull,
    }
}

/// The relation between two endpoints, see [`relation_between`].
fn relate(model_a: &dml::Model, a: &dml::Field, model_b: &dml::Model, b: &dml::Field) -> (relation:
    Relation)
    ensures
        relation@ == relation_between(model_a, a, model_b, b),
{
    let name = match &a.field_type {
        FieldType::Relation(info) => info.name.clone(),
        _ => String::new(),
    };
    let manifestation = if a.arity == FieldArity::List && b.arity == FieldArity::List {
        let mut table = owned("_");
        table.append(name.as_str());
        RelationLinkManifestation::RelationTable(
            RelationTable {
                table,
                model_a_column: owned("A"),
                model_b_column: owned("B"),
                id_column: None,
            },
        )
    } else {
        let a_holds = if a.arity == FieldArity::List {
            false
        } else if b.arity == FieldArity::List {
            true
        } else {
            has_references(a) && !has_references(b)
        };
        if a_holds {
            RelationLinkManifestation::Inline(
                InlineRelation {
                    in_table_of_model_name: model_a.name.clone(),
                    referencing_column: column(a),
                },
            )
        } else {
            RelationLinkManifestation::Inline(
                InlineRelation {
                    in_table_of_model_name: model_b.name.clone(),
                    referencing_column: column(b),
                },
            )
        }
    };
    Relation {
        name,
        model_a_name: model_a.name.clone(),
        model_b_name: model_b.name.clone(),
        model_a_on_delete: convert_on_delete(a),
        model_b_on_delete: convert_on_delete(b),
        manifestation: Some(manifestation),
    }
}

/// Adds to `relations` the relation that is made from `field`, a field of
/// `model`, see [`relation_from`].
fn add_relation_from(
    datamodel: &dml::Datamodel,
    model: &dml::Model,
    field: &dml::Field,
    relations: &mut Vec<Relation>,
)
    ensures
        final(relations).deep_view() == old(relations).deep_view() + relation_from(
            datamodel,
            model,
            field,
        ),
{
    if let Some((related, back)) = find_companion(datamodel, model, field) {
        if stands_on_side_a(model, field, back) {
            let ghost before = relations.deep_view();
            let relation = relate(model, field, related, back);
            relations.push(relation);
            assert(relations.deep_view() =~= before + seq![relation@]);
            return ;
        }
    }
    assert(relations.deep_view() =~= old(relations).deep_view() + Seq::<RelationView>::empty());
}

/// A copy of `relation`.
fn copy_relation(relation: &Relation) -> (copy: Relation)
    ensures
        copy@ == relation@,
{
    Relation {
        name: relation.name.clone(),
        model_a_name: relation.model_a_name.clone(),
        model_b_name: relation.model_b_name.clone(),
        model_a_on_delete: relation.model_a_on_delete,
        model_b_on_delete: relation.model_b_on_delete,
        manifestation: match &relation.manifestation {
            Some(RelationLinkManifestation::Inline(inline)) => Some(
                RelationLinkManifestation::Inline(
                    InlineRelation {
                        in_table_of_model_name: inline.in_table_of_model_name.clone(),
                        referencing_column: inline.referencing_column.clone(),
                    },
                ),
            ),
            Some(RelationLinkManifestation::RelationTable(table)) => Some(
                RelationLinkManifestation::RelationTable(
                    RelationTable {
                        table: table.table.clone(),
                        model_a_column: table.model_a_column.clone(),
                        model_b_column: table.model_b_column.clone(),
                        id_column: match &table.id_column {
                            Some(column) => Some(column.clone()),
                            None => None,
                        },
                    },
                ),
            ),
            None => None,
        },
    }
}

/// The relations of `datamodel` in the order of their names, see
/// [`converted_relations`].
fn convert_relations(datamodel: &dml::Datamodel) -> (relations: Vec<Relation>)
    ensures
        relations.deep_view() == converted_relations(datamodel),
{
    let declared = declare_relations(datamodel);
    let ghost views = declared.deep_view();
    let mut names: Vec<String> = Vec::new();
    let mut i: usize = 0;
    while i < declared.len()
        invariant
            i <= declared@.len(),
            views == declared.deep_view(),
            names@.len() == i,
            forall|k: int| 0 <= k < i ==> (#[trigger] names@[k])@ == views[k].name,
        decreases declared@.len() - i,
    {
        assert(views[i as int] == declared@[i as int]@);
        names.push(declared[i].name.clone());
        i += 1;
    }
    assert(names.deep_view() =~= Seq::new(views.len(), |i: int| views[i].name));
    let order = order_of(&names);
    let mut relations: Vec<Relation> = Vec::new();
    let mut k: usize = 0;
    while k < order.len()
        invariant
            k <= order@.len(),
            order@.len() == declared@.len(),
            views == declared.deep_view(),
            forall|n: int| 0 <= n < order@.len() ==> #[trigger] order@[n] < declared@.len(),
            relations@.len() == k,
            forall|n: int| 0 <= n < k ==> (#[trigger] relations@[n])@ == views[order@[n] as int],
        decreases order@.len() - k,
    {
        assert(views[order@[k as int] as int] == declared@[order@[k as int] as int]@);
        relations.push(copy_relation(&declared[order[k]]));
        k += 1;
    }
    assert(relations.deep_view() =~= converted_relations(datamodel));
    relations
}

/// The relations of `datamodel` as they are declared, see
/// [`relations_in_models`].
fn declare_relations(datamodel: &dml::Datamodel) -> (relations: Vec<Relation>)
    ensures
        relations.deep_view() == relations_in_models(datamodel, datamodel.models@.len()),
{
    let mut relations: Vec<Relation> = Vec::new();
    let mut i: usize = 0;
    assert(relations.deep_view() =~= relations_in_models(datamodel, 0));
    while i < datamodel.models.len()
        invariant
            i <= datamodel.models@.len(),
            relations.deep_view() == relations_in_models(datamodel, i as nat),
        decreases datamodel.models@.len() - i,
    {
        let model = &datamodel.models[i];
        let ghost before = relations.deep_view();
        let mut j: usize = 0;
        assert(relations.deep_view() =~= before + relations_in_fields(datamodel, model, 0));
        while j < model.fields.len()
            invariant
                j <= model.fields@.len(),
                relations.deep_view() == before + relations_in_fields(datamodel, model, j as nat),
            decreases model.fields@.len() - j,
        {
            add_relation_from(datamodel, model, &model.fields[j], &mut relations);
            assert(relations.deep_view() =~= before + relations_in_fields(
                datamodel,
                model,
                (j + 1) as nat,
            ));
            j += 1;
        }
        i += 1;
    }
    relations
}

impl DatamodelConverter {
    /// Converts `datamodel`, see [`converted`]. A datamodel that cannot be
    /// converted was not validated and completed.
    pub fn convert(datamodel: &dml::Datamodel) -> (result: Result<
        InternalDataModel,
        ValidationError,
    >)
        ensures
            match result {
                Ok(internal) => is_convertible(datamodel) && internal@ == converted(datamodel),
                Err(e) => !is_convertible(datamodel) && e@ == (ErrorView::State {
                    message: NOT_CONVERTIBLE@,
                }),
            },
    {
        let mut models: Vec<Model> = Vec::new();
        let mut i: usize = 0;
        while i < datamodel.models.len()
            invariant
                i <= datamodel.models@.len(),
                models@.len() == i,
                forall|k: int|
                    0 <= k < i ==> model_is_convertible(datamodel, #[trigger] &datamodel.models@[k]),
                forall|k: int|
                    0 <= k < i ==> (#[trigger] models@[k])@ == converted_model(
                        datamodel,
                        &datamodel.models@[k],
                    ),
            decreases datamodel.models@.len() - i,
        {
            match convert_model(datamodel, &datamodel.models[i]) {
                Some(model) => {
                    models.push(model);
                },
                None => {
                    assert(!model_is_convertible(datamodel, &datamodel.models@[i as int]));
                    return Err(ValidationError::new_state_error(NOT_CONVERTIBLE));
                },
            }
            i += 1;
        }
        let mut enums: Vec<InternalEnum> = Vec::new();
        let mut k: usize = 0;
        while k < datamodel.enums.len()
            invariant
                k <= datamodel.enums@.len(),
                enums@.len() == k,
                forall|n: int|
                    0 <= n < k ==> (#[trigger] enums@[n])@ == converted_enum(&datamodel.enums@[n]),
            decreases datamodel.enums@.len() - k,
        {
            enums.push(convert_enum(&datamodel.enums[k]));
            k += 1;
        }
        let relations = convert_relations(datamodel);
        let internal = InternalDataModel { models, enums, relations };
        assert(internal@.models =~= converted(datamodel).models);
        assert(internal@.enums =~= converted(datamodel).enums);
        Ok(internal)
    }
}

} // verus!
