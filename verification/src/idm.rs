//! The internal data model: models with their scalar and relation fields,
//! enums, and relations with the way they are stored.
//!
//! Relations name their models instead of holding them, so that a model may
//! be related to itself and to models that are related to it.

use crate::text::str_eq;
use vstd::prelude::*;

verus! {

/// The type of the values of a field.
#[derive(Clone, Copy, Debug, PartialEq, Eq, Structural)]
pub enum TypeIdentifier {
    String,
    Float,
    Boolean,
    Enum,
    Json,
    DateTime,
    GraphQLID,
    UUID,
    Int,
    Relation,
}

/// How the values of an id come about.
#[derive(Clone, Copy, Debug, PartialEq, Eq, Structural)]
pub enum IdStrategy {
    Auto,
    Sequence,
}

/// How the values of a list of scalars are stored.
#[derive(Clone, Copy, Debug, PartialEq, Eq, Structural)]
pub enum ScalarListStrategy {
    Embedded,
    Relation,
}

/// A sequence that the values of an id are drawn from.
#[derive(Clone, Debug, PartialEq)]
pub struct Sequence {
    pub name: String,
    pub initial_value: i32,
    pub allocation_size: i32,
}

/// What sets a field apart from plain data.
#[derive(Clone, Debug, PartialEq)]
pub enum FieldBehaviour {
    Id { strategy: IdStrategy, sequence: Option<Sequence> },
    CreatedAt,
    UpdatedAt,
    ScalarList { strategy: ScalarListStrategy },
}

/// An enum with its values.
#[derive(Clone, Debug, PartialEq)]
pub struct InternalEnum {
    pub name: String,
    pub values: Vec<String>,
}

/// The column of a field, where it is not called like the field.
#[derive(Clone, Debug, PartialEq)]
pub struct FieldManifestation {
    pub db_name: String,
}

/// A field that holds scalars or values of an enum.
#[derive(Clone, Debug, PartialEq)]
pub struct ScalarField {
    pub name: String,
    pub type_identifier: TypeIdentifier,
    pub is_required: bool,
    pub is_list: bool,
    pub is_unique: bool,
    pub is_auto_generated: bool,
    pub manifestation: Option<FieldManifestation>,
    pub behaviour: Option<FieldBehaviour>,
    pub internal_enum: Option<InternalEnum>,
}

/// The side of a relation that a field stands on.
#[derive(Clone, Copy, Debug, PartialEq, Eq, Structural)]
pub enum RelationSide {
    A,
    B,
}

/// A field that refers to a model.
#[derive(Clone, Debug, PartialEq)]
pub struct RelationField {
    pub name: String,
    pub type_identifier: TypeIdentifier,
    pub is_required: bool,
    pub is_list: bool,
    pub is_unique: bool,
    pub is_auto_generated: bool,
    pub relation_name: String,
    pub relation_side: RelationSide,
}

/// A field of a model.
#[derive(Clone, Debug, PartialEq)]
pub enum Field {
    Scalar(ScalarField),
    Relation(RelationField),
}

/// The table of a model, where it is not called like the model.
#[derive(Clone, Debug, PartialEq)]
pub struct ModelManifestation {
    pub db_name: String,
}

/// A model.
#[derive(Clone, Debug, PartialEq)]
pub struct Model {
    pub name: String,
    pub is_embedded: bool,
    pub fields: Vec<Field>,
    pub manifestation: Option<ModelManifestation>,
}

/// A relation that is stored in a column of the table of one of its models.
#[derive(Clone, Debug, PartialEq)]
pub struct InlineRelation {
    pub in_table_of_model_name: String,
    pub referencing_column: String,
}

/// A relation that is stored in a table of its own.
#[derive(Clone, Debug, PartialEq)]
pub struct RelationTable {
    pub table: String,
    pub model_a_column: String,
    pub model_b_column: String,
    pub id_column: Option<String>,
}

/// How a relation is stored.
#[derive(Clone, Debug, PartialEq)]
pub enum RelationLinkManifestation {
    Inline(InlineRelation),
    RelationTable(RelationTable),
}

/// What happens to the other side of a relation when a record is deleted.
#[derive(Clone, Copy, Debug, PartialEq, Eq, Structural)]
pub enum OnDelete {
    SetNull,
    Cascade,
}

/// A relation between two models. `model_a_name` does not stand after
/// `model_b_name` in the order of texts.
#[derive(Clone, Debug, PartialEq)]
pub struct Relation {
    pub name: String,
    pub model_a_name: String,
    pub model_b_name: String,
    pub model_a_on_delete: OnDelete,
    pub model_b_on_delete: OnDelete,
    pub manifestation: Option<RelationLinkManifestation>,
}

/// The internal data model.
#[derive(Clone, Debug, PartialEq)]
pub struct InternalDataModel {
    pub models: Vec<Model>,
    pub enums: Vec<InternalEnum>,
    pub relations: Vec<Relation>,
}

/// An enum, as plain values.
pub struct InternalEnumView {
    pub name: Seq<char>,
    pub values: Seq<Seq<char>>,
}

/// A sequence, as plain values.
pub struct SequenceView {
    pub name: Seq<char>,
    pub initial_value: i32,
    pub allocation_size: i32,
}

/// What sets a field apart, as plain values.
pub enum FieldBehaviourView {
    Id { strategy: IdStrategy, sequence: Option<SequenceView> },
    CreatedAt,
    UpdatedAt,
    ScalarList { strategy: ScalarListStrategy },
}

/// A scalar field, as plain values.
pub struct ScalarFieldView {
    pub name: Seq<char>,
    pub type_identifier: TypeIdentifier,
    pub is_required: bool,
    pub is_list: bool,
    pub is_unique: bool,
    pub is_auto_generated: bool,
    pub db_name: Option<Seq<char>>,
    pub behaviour: Option<FieldBehaviourView>,
    pub internal_enum: Option<InternalEnumView>,
}

/// A relation field, as plain values.
pub struct RelationFieldView {
    pub name: Seq<char>,
    pub is_required: bool,
    pub is_list: bool,
    pub is_unique: bool,
    pub is_auto_generated: bool,
    pub relation_name: Seq<char>,
    pub relation_side: RelationSide,
}

/// A field, as plain values.
pub enum FieldView {
    Scalar(ScalarFieldView),
    Relation(RelationFieldView),
}

/// A model, as plain values.
pub struct ModelView {
    pub name: Seq<char>,
    pub is_embedded: bool,
    pub fields: Seq<FieldView>,
    pub db_name: Option<Seq<char>>,
}

/// How a relation is stored, as plain values.
pub enum ManifestationView {
    Inline { in_table_of_model_name: Seq<char>, referencing_column: Seq<char> },
    RelationTable {
        table: Seq<char>,
        model_a_column: Seq<char>,
        model_b_column: Seq<char>,
        id_column: Option<Seq<char>>,
    },
}

/// A relation, as plain values.
pub struct RelationView {
    pub name: Seq<char>,
    pub model_a_name: Seq<char>,
    pub model_b_name: Seq<char>,
    pub model_a_on_delete: OnDelete,
    pub model_b_on_delete: OnDelete,
    pub manifestation: Option<ManifestationView>,
}

/// The internal data model, as plain values.
pub struct InternalDataModelView {
    pub models: Seq<ModelView>,
    pub enums: Seq<InternalEnumView>,
    pub relations: Seq<RelationView>,
}

impl View for InternalEnum {
    type V = InternalEnumView;

    open spec fn view(&self) -> InternalEnumView {
        InternalEnumView { name: self.name@, values: self.values.deep_view() }
    }
}

impl DeepView for InternalEnum {
    type V = InternalEnumView;

    open spec fn deep_view(&self) -> InternalEnumView {
        self@
    }
}

impl View for FieldBehaviour {
    type V = FieldBehaviourView;

    open spec fn view(&self) -> FieldBehaviourView {
        match self {
            FieldBehaviour::Id { strategy, sequence } => FieldBehaviourView::Id {
                strategy: *strategy,
                sequence: match sequence {
                    Some(sequence) => Some(
                        SequenceView {
                            name: sequence.name@,
                            initial_value: sequence.initial_value,
                            allocation_size: sequence.allocation_size,
                        },
                    ),
                    None => None,
                },
            },
            FieldBehaviour::CreatedAt => FieldBehaviourView::CreatedAt,
            FieldBehaviour::UpdatedAt => FieldBehaviourView::UpdatedAt,
            FieldBehaviour::ScalarList { strategy } => FieldBehaviourView::ScalarList {
                strategy: *strategy,
            },
        }
    }
}

impl View for ScalarField {
    type V = ScalarFieldView;

    open spec fn view(&self) -> ScalarFieldView {
        ScalarFieldView {
            name: self.name@,
            type_identifier: self.type_identifier,
            is_required: self.is_required,
            is_list: self.is_list,
            is_unique: self.is_unique,
            is_auto_generated: self.is_auto_generated,
            db_name: match self.manifestation {
                Some(manifestation) => Some(manifestation.db_name@),
                None => None,
            },
            behaviour: match self.behaviour {
                Some(behaviour) => Some(behaviour@),
                None => None,
            },
            internal_enum: match self.internal_enum {
                Some(en) => Some(en@),
                None => None,
            },
        }
    }
}

impl View for RelationField {
    type V = RelationFieldView;

    open spec fn view(&self) -> RelationFieldView {
        RelationFieldView {
            name: self.name@,
            is_required: self.is_required,
            is_list: self.is_list,
            is_unique: self.is_unique,
            is_auto_generated: self.is_auto_generated,
            relation_name: self.relation_name@,
            relation_side: self.relation_side,
        }
    }
}

impl View for Field {
    type V = FieldView;

    open spec fn view(&self) -> FieldView {
        match self {
            Field::Scalar(field) => FieldView::Scalar(field@),
            Field::Relation(field) => FieldView::Relation(field@),
        }
    }
}

impl DeepView for Field {
    type V = FieldView;

    open spec fn deep_view(&self) -> FieldView {
        self@
    }
}

impl View for Model {
    type V = ModelView;

    open spec fn view(&self) -> ModelView {
        ModelView {
            name: self.name@,
            is_embedded: self.is_embedded,
            fields: self.fields.deep_view(),
            db_name: match self.manifestation {
                Some(manifestation) => Some(manifestation.db_name@),
                None => None,
            },
        }
    }
}

impl DeepView for Model {
    type V = ModelView;

    open spec fn deep_view(&self) -> ModelView {
        self@
    }
}

impl View for RelationLinkManifestation {
    type V = ManifestationView;

    open spec fn view(&self) -> ManifestationView {
        match self {
            RelationLinkManifestation::Inline(inline) => ManifestationView::Inline {
                in_table_of_model_name: inline.in_table_of_model_name@,
                referencing_column: inline.referencing_column@,
            },
            RelationLinkManifestation::RelationTable(table) => ManifestationView::RelationTable {
                table: table.table@,
                model_a_column: table.model_a_column@,
                model_b_column: table.model_b_column@,
                id_column: table.id_column.deep_view(),
            },
        }
    }
}

impl View for Relation {
    type V = RelationView;

    open spec fn view(&self) -> RelationView {
        RelationView {
            name: self.name@,
            model_a_name: self.model_a_name@,
            model_b_name: self.model_b_name@,
            model_a_on_delete: self.model_a_on_delete,
            model_b_on_delete: self.model_b_on_delete,
            manifestation: match self.manifestation {
                Some(manifestation) => Some(manifestation@),
                None => None,
            },
        }
    }
}

impl DeepView for Relation {
    type V = RelationView;

    open spec fn deep_view(&self) -> RelationView {
        self@
    }
}

impl View for InternalDataModel {
    type V = InternalDataModelView;

    open spec fn view(&self) -> InternalDataModelView {
        InternalDataModelView {
            models: self.models.deep_view(),
            enums: self.enums.deep_view(),
            relations: self.relations.deep_view(),
        }
    }
}

impl Model {
    /// Whether field `i` is a scalar field called `name`.
    pub open spec fn is_scalar_named(&self, i: int, name: Seq<char>) -> bool {
        self.fields@[i] matches Field::Scalar(field) && field.name@ == name
    }

    /// Whether field `i` is a relation field called `name`.
    pub open spec fn is_relation_named(&self, i: int, name: Seq<char>) -> bool {
        self.fields@[i] matches Field::Relation(field) && field.name@ == name
    }

    /// The first scalar field called `name`.
    pub fn find_scalar_field(&self, name: &str) -> (found: Option<&ScalarField>)
        ensures
            match found {
                Some(field) => exists|i: int|
                    {
                        &&& 0 <= i < self.fields@.len()
                        &&& #[trigger] self.is_scalar_named(i, name@)
                        &&& self.fields@[i] == Field::Scalar(*field)
                        &&& forall|j: int| 0 <= j < i ==> !self.is_scalar_named(j, name@)
                    },
                None => forall|i: int|
                    0 <= i < self.fields@.len() ==> !#[trigger] self.is_scalar_named(i, name@),
            },
    {
        let mut i: usize = 0;
        while i < self.fields.len()
            invariant
                i <= self.fields@.len(),
                forall|j: int| 0 <= j < i ==> !#[trigger] self.is_scalar_named(j, name@),
            decreases self.fields@.len() - i,
        {
            if let Field::Scalar(field) = &self.fields[i] {
                if str_eq(field.name.as_str(), name) {
                    assert(self.is_scalar_named(i as int, name@));
                    return Some(field);
                }
            }
            i += 1;
        }
        None
    }

    /// The first relation field called `name`.
    pub fn find_relation_field(&self, name: &str) -> (found: Option<&RelationField>)
        ensures
            match found {
                Some(field) => exists|i: int|
                    {
                        &&& 0 <= i < self.fields@.len()
                        &&& #[trigger] self.is_relation_named(i, name@)
                        &&& self.fields@[i] == Field::Relation(*field)
                        &&& forall|j: int| 0 <= j < i ==> !self.is_relation_named(j, name@)
                    },
                None => forall|i: int|
                    0 <= i < self.fields@.len() ==> !#[trigger] self.is_relation_named(i, name@),
            },
    {
        let mut i: usize = 0;
        while i < self.fields.len()
            invariant
                i <= self.fields@.len(),
                forall|j: int| 0 <= j < i ==> !#[trigger] self.is_relation_named(j, name@),
            decreases self.fields@.len() - i,
        {
            if let Field::Relation(field) = &self.fields[i] {
                if str_eq(field.name.as_str(), name) {
                    assert(self.is_relation_named(i as int, name@));
                    return Some(field);
                }
            }
            i += 1;
        }
        None
    }
}

impl InternalDataModel {
    /// The models, in the order of the datamodel.
    pub fn models(&self) -> (models: &Vec<Model>)
        ensures
            models == self.models,
    {
        &self.models
    }

    /// The relations, in the order of their names.
    pub fn relations(&self) -> (relations: &Vec<Relation>)
        ensures
            relations == self.relations,
    {
        &self.relations
    }

    /// The first model called `name`.
    pub fn find_model(&self, name: &str) -> (found: Option<&Model>)
        ensures
            match found {
                Some(model) => exists|i: int|
                    {
                        &&& 0 <= i < self.models@.len()
                        &&& #[trigger] self.models@[i] == *model
                        &&& model.name@ == name@
                        &&& forall|j: int| 0 <= j < i ==> self.models@[j].name@ != name@
                    },
                None => forall|i: int|
                    0 <= i < self.models@.len() ==> (#[trigger] self.models@[i]).name@ != name@,
            },
    {
        let mut i: usize = 0;
        while i < self.models.len()
            invariant
                i <= self.models@.len(),
                forall|j: int| 0 <= j < i ==> (#[trigger] self.models@[j]).name@ != name@,
            decreases self.models@.len() - i,
        {
            if str_eq(self.models[i].name.as_str(), name) {
                return Some(&self.models[i]);
            }
            i += 1;
        }
        None
    }

    /// The first relation called `name`.
    pub fn find_relation(&self, name: &str) -> (found: Option<&Relation>)
        ensures
            match found {
                Some(relation) => exists|i: int|
                    {
                        &&& 0 <= i < self.relations@.len()
                        &&& #[trigger] self.relations@[i] == *relation
                        &&& relation.name@ == name@
                        &&& forall|j: int| 0 <= j < i ==> self.relations@[j].name@ != name@
                    },
                None => forall|i: int|
                    0 <= i < self.relations@.len() ==> (#[trigger] self.relations@[i]).name@
                        != name@,
            },
    {
        let mut i: usize = 0;
        while i < self.relations.len()
            invariant
                i <= self.relations@.len(),
                forall|j: int| 0 <= j < i ==> (#[trigger] self.relations@[j]).name@ != name@,
            decreases self.relations@.len() - i,
        {
            if str_eq(self.relations[i].name.as_str(), name) {
                return Some(&self.relations[i]);
            }
            i += 1;
        }
        None
    }
}

} // verus!
