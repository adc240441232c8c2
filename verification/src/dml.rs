//! The datamodel: models, fields, relations and enums, as the rest of the
//! library reasons about them.

use crate::text::{owned, str_eq};
use vstd::prelude::*;

verus! {

/// The built-in scalar types.
#[derive(Clone, Copy, Debug, PartialEq, Eq, Structural)]
pub enum ScalarType {
    Int,
    Float,
    Boolean,
    String,
    DateTime,
    Decimal,
    Json,
    Bytes,
}

/// How many values a field holds.
#[derive(Clone, Copy, Debug, PartialEq, Eq, Structural)]
pub enum FieldArity {
    Required,
    Optional,
    List,
}

/// What happens to the other side of a relation when a record is deleted.
#[derive(Clone, Copy, Debug, PartialEq, Eq, Structural)]
pub enum OnDeleteStrategy {
    Cascade,
    NoAction,
}

/// A default value: a literal, or a call that produces the value when a
/// record is created. Numbers with a fraction and dates are kept as text.
#[derive(Debug, PartialEq)]
pub enum Value {
    Int(i32),
    Float(String),
    Decimal(String),
    Boolean(bool),
    String(String),
    DateTime(String),
    ConstantLiteral(String),
    /// The call's name, the type of what it returns, and its arguments.
    Expression(String, ScalarType, Vec<Value>),
}

/// One endpoint of a relation.
#[derive(Clone, Debug, PartialEq)]
pub struct RelationInfo {
    /// The name of the model on the other side.
    pub to: String,
    /// The fields of the other model that this side refers to. Empty on the
    /// side that does not hold the reference.
    pub to_fields: Vec<String>,
    /// The relation's name; empty as long as none was given or derived.
    pub name: String,
    pub on_delete: OnDeleteStrategy,
}

/// The type of a field.
#[derive(Clone, Debug, PartialEq)]
pub enum FieldType {
    /// An enum, by its name.
    Enum(String),
    /// Another model.
    Relation(RelationInfo),
    /// A scalar.
    Base(ScalarType),
}

/// A field of a model.
#[derive(Debug, PartialEq)]
pub struct Field {
    pub name: String,
    pub arity: FieldArity,
    pub field_type: FieldType,
    /// The column name, where it differs from the field's name.
    pub database_name: Option<String>,
    pub default_value: Option<Value>,
    pub is_unique: bool,
    pub is_id: bool,
    /// Whether the library added the field, rather than the source text.
    pub is_generated: bool,
    pub is_updated_at: bool,
    pub is_created_at: bool,
}

/// A model.
#[derive(Debug, PartialEq)]
pub struct Model {
    pub name: String,
    pub fields: Vec<Field>,
    pub is_embedded: bool,
    /// The table name, where it differs from the model's name.
    pub database_name: Option<String>,
    /// The groups of fields whose values together occur in one record only.
    pub unique_criteria: Vec<Vec<String>>,
}

/// An enum.
#[derive(Clone, Debug, PartialEq)]
pub struct Enum {
    pub name: String,
    pub values: Vec<String>,
}

/// A datamodel.
#[derive(Debug, PartialEq)]
pub struct Datamodel {
    pub enums: Vec<Enum>,
    pub models: Vec<Model>,
}

/// A default value, as plain values.
pub enum ValueView {
    Int(i32),
    Float(Seq<char>),
    Decimal(Seq<char>),
    Boolean(bool),
    String(Seq<char>),
    DateTime(Seq<char>),
    ConstantLiteral(Seq<char>),
    Expression(Seq<char>, ScalarType, Seq<ValueView>),
}

/// One endpoint of a relation, as plain values.
pub struct RelationInfoView {
    pub to: Seq<char>,
    pub to_fields: Seq<Seq<char>>,
    pub name: Seq<char>,
    pub on_delete: OnDeleteStrategy,
}

/// The type of a field, as plain values.
pub enum FieldTypeView {
    Enum(Seq<char>),
    Relation(RelationInfoView),
    Base(ScalarType),
}

/// A field, as plain values.
pub struct FieldView {
    pub name: Seq<char>,
    pub arity: FieldArity,
    pub field_type: FieldTypeView,
    pub database_name: Option<Seq<char>>,
    pub default_value: Option<ValueView>,
    pub is_unique: bool,
    pub is_id: bool,
    pub is_generated: bool,
    pub is_updated_at: bool,
    pub is_created_at: bool,
}

/// A model, as plain values.
pub struct ModelView {
    pub name: Seq<char>,
    pub fields: Seq<FieldView>,
    pub is_embedded: bool,
    pub database_name: Option<Seq<char>>,
    pub unique_criteria: Seq<Seq<Seq<char>>>,
}

/// An enum, as plain values.
pub struct EnumView {
    pub name: Seq<char>,
    pub values: Seq<Seq<char>>,
}

/// A datamodel, as plain values.
pub struct DatamodelView {
    pub enums: Seq<EnumView>,
    pub models: Seq<ModelView>,
}

/// The view of a default value, see [`Value::view`].
pub open spec fn value_view(value: Value) -> ValueView
    decreases value,
{
    match value {
        Value::Int(number) => ValueView::Int(number),
        Value::Float(text) => ValueView::Float(text@),
        Value::Decimal(text) => ValueView::Decimal(text@),
        Value::Boolean(truth) => ValueView::Boolean(truth),
        Value::String(text) => ValueView::String(text@),
        Value::DateTime(text) => ValueView::DateTime(text@),
        Value::ConstantLiteral(text) => ValueView::ConstantLiteral(text@),
        Value::Expression(name, return_type, args) => ValueView::Expression(
            name@,
            return_type,
            Seq::new(
                args@.len(),
                |i: int|
                    if 0 <= i < args@.len() {
                        value_view(args@[i])
                    } else {
                        ValueView::Boolean(false)
                    },
            ),
        ),
    }
}

impl View for Value {
    type V = ValueView;

    open spec fn view(&self) -> ValueView {
        value_view(*self)
    }
}

impl DeepView for Value {
    type V = ValueView;

    open spec fn deep_view(&self) -> ValueView {
        self@
    }
}

/// The view of a call is made of the views of its arguments.
pub proof fn lemma_view_of_expression(value: Value)
    ensures
        value matches Value::Expression(name, return_type, args) ==> value@
            == ValueView::Expression(name@, return_type, args.deep_view()),
{
    match value {
        Value::Expression(name, return_type, args) => {
            assert(value@->Expression_2 =~= args.deep_view());
        },
        _ => {},
    }
}

impl View for RelationInfo {
    type V = RelationInfoView;

    open spec fn view(&self) -> RelationInfoView {
        RelationInfoView {
            to: self.to@,
            to_fields: self.to_fields.deep_view(),
            name: self.name@,
            on_delete: self.on_delete,
        }
    }
}

impl View for FieldType {
    type V = FieldTypeView;

    open spec fn view(&self) -> FieldTypeView {
        match self {
            FieldType::Enum(name) => FieldTypeView::Enum(name@),
            FieldType::Relation(info) => FieldTypeView::Relation(info@),
            FieldType::Base(scalar) => FieldTypeView::Base(*scalar),
        }
    }
}

impl View for Field {
    type V = FieldView;

    open spec fn view(&self) -> FieldView {
        FieldView {
            name: self.name@,
            arity: self.arity,
            field_type: self.field_type@,
            database_name: self.database_name.deep_view(),
            default_value: self.default_value.deep_view(),
            is_unique: self.is_unique,
            is_id: self.is_id,
            is_generated: self.is_generated,
            is_updated_at: self.is_updated_at,
            is_created_at: self.is_created_at,
        }
    }
}

impl DeepView for Field {
    type V = FieldView;

    open spec fn deep_view(&self) -> FieldView {
        self@
    }
}

impl View for Model {
    type V = ModelView;

    open spec fn view(&self) -> ModelView {
        ModelView {
            name: self.name@,
            fields: self.fields.deep_view(),
            is_embedded: self.is_embedded,
            database_name: self.database_name.deep_view(),
            unique_criteria: self.unique_criteria.deep_view(),
        }
    }
}

impl DeepView for Model {
    type V = ModelView;

    open spec fn deep_view(&self) -> ModelView {
        self@
    }
}

impl View for Enum {
    type V = EnumView;

    open spec fn view(&self) -> EnumView {
        EnumView { name: self.name@, values: self.values.deep_view() }
    }
}

impl DeepView for Enum {
    type V = EnumView;

    open spec fn deep_view(&self) -> EnumView {
        self@
    }
}

impl View for Datamodel {
    type V = DatamodelView;

    open spec fn view(&self) -> DatamodelView {
        DatamodelView { enums: self.enums.deep_view(), models: self.models.deep_view() }
    }
}

impl RelationInfo {
    /// An unnamed endpoint that refers to no fields of `to`.
    pub fn new(to: &str) -> (info: RelationInfo)
        ensures
            info.to@ == to@,
            info.to_fields@.len() == 0,
            info.name@.len() == 0,
            info.on_delete == OnDeleteStrategy::NoAction,
    {
        RelationInfo {
            to: owned(to),
            to_fields: Vec::new(),
            name: String::new(),
            on_delete: OnDeleteStrategy::NoAction,
        }
    }
}

impl Field {
    /// A required field without any directive applied.
    pub fn new(name: &str, field_type: FieldType) -> (field: Field)
        ensures
            field.name@ == name@,
            field.field_type == field_type,
            field.arity == FieldArity::Required,
            field.database_name is None,
            field.default_value is None,
            !field.is_unique,
            !field.is_id,
            !field.is_generated,
            !field.is_updated_at,
            !field.is_created_at,
    {
        Field {
            name: owned(name),
            arity: FieldArity::Required,
            field_type,
            database_name: None,
            default_value: None,
            is_unique: false,
            is_id: false,
            is_generated: false,
            is_updated_at: false,
            is_created_at: false,
        }
    }

    /// Whether the field is a required reference to another model.
    pub open spec fn is_required_relation(&self) -> bool {
        self.field_type is Relation && self.arity == FieldArity::Required
    }

    /// Whether the field is an endpoint of the relation `name` to the model
    /// `to`, and is not called `exclude_field`.
    pub open spec fn is_endpoint_of(
        &self,
        to: Seq<char>,
        name: Seq<char>,
        exclude_field: Seq<char>,
    ) -> bool {
        &&& self.field_type matches FieldType::Relation(info)
        &&& info.to@ == to
        &&& info.name@ == name
        &&& self.name@ != exclude_field
    }
}

impl Model {
    /// A model without fields that is neither embedded nor mapped.
    pub fn new(name: &str) -> (model: Model)
        ensures
            model.name@ == name@,
            model.fields@.len() == 0,
            !model.is_embedded,
            model.database_name is None,
            model.unique_criteria@.len() == 0,
    {
        Model {
            name: owned(name),
            fields: Vec::new(),
            is_embedded: false,
            database_name: None,
            unique_criteria: Vec::new(),
        }
    }

    /// Adds `field` after the fields the model has.
    pub fn add_field(&mut self, field: Field)
        ensures
            final(self).fields@ == old(self).fields@.push(field),
            final(self).name == old(self).name,
            final(self).is_embedded == old(self).is_embedded,
            final(self).database_name == old(self).database_name,
            final(self).unique_criteria == old(self).unique_criteria,
    {
        self.fields.push(field);
    }

    /// The model's fields, in declaration order.
    pub fn fields(&self) -> (fields: &Vec<Field>)
        ensures
            fields == self.fields,
    {
        &self.fields
    }

    /// How many of the model's fields are marked as id.
    pub open spec fn id_field_count(&self) -> nat {
        self.fields@.filter(|f: Field| f.is_id).len()
    }

    /// How many of the model's fields are marked as id.
    pub fn count_id_fields(&self) -> (count: usize)
        ensures
            count == self.id_field_count(),
    {
        let mut count: usize = 0;
        let mut i: usize = 0;
        let ghost is_id = |f: Field| f.is_id;
        proof {
            reveal(Seq::filter);
            assert(self.fields@.subrange(0, 0) =~= Seq::<Field>::empty());
        }
        while i < self.fields.len()
            invariant
                i <= self.fields@.len(),
                count <= i,
                is_id == (|f: Field| f.is_id),
                count == self.fields@.subrange(0, i as int).filter(is_id).len(),
            decreases self.fields@.len() - i,
        {
            proof {
                reveal(Seq::filter);
                let next = self.fields@.subrange(0, i + 1);
                assert(next.drop_last() =~= self.fields@.subrange(0, i as int));
                assert(next.last() == self.fields@[i as int]);
            }
            if self.fields[i].is_id {
                count += 1;
            }
            i += 1;
        }
        assert(self.fields@.subrange(0, i as int) =~= self.fields@);
        count
    }

    /// Whether the model only links two other models: it has exactly two
    /// required relation fields.
    pub open spec fn spec_is_relation_model(&self) -> bool {
        self.fields@.filter(|f: Field| f.is_required_relation()).len() == 2
    }

    /// Whether the model only links two other models: it has exactly two
    /// required relation fields.
    pub fn is_relation_model(&self) -> (is: bool)
        ensures
            is == self.spec_is_relation_model(),
    {
        let mut count: usize = 0;
        let mut i: usize = 0;
        let ghost required = |f: Field| f.is_required_relation();
        proof {
            reveal(Seq::filter);
            assert(self.fields@.subrange(0, 0) =~= Seq::<Field>::empty());
        }
        while i < self.fields.len()
            invariant
                i <= self.fields@.len(),
                count <= i,
                required == (|f: Field| f.is_required_relation()),
                count == self.fields@.subrange(0, i as int).filter(required).len(),
            decreases self.fields@.len() - i,
        {
            proof {
                reveal(Seq::filter);
                let next = self.fields@.subrange(0, i + 1);
                assert(next.drop_last() =~= self.fields@.subrange(0, i as int));
                assert(next.last() == self.fields@[i as int]);
            }
            let field = &self.fields[i];
            let is_relation = match &field.field_type {
                FieldType::Relation(_) => true,
                _ => false,
            };
            if is_relation && field.arity == FieldArity::Required {
                count += 1;
            }
            i += 1;
        }
        assert(self.fields@.subrange(0, i as int) =~= self.fields@);
        count == 2
    }

    /// Whether `self.fields[i]` is the first field called `name`.
    pub open spec fn is_first_field_named(&self, i: int, name: Seq<char>) -> bool {
        &&& 0 <= i < self.fields@.len()
        &&& self.fields@[i].name@ == name
        &&& forall|j: int| 0 <= j < i ==> self.fields@[j].name@ != name
    }

    /// Whether some field is called `name`.
    pub open spec fn has_field(&self, name: Seq<char>) -> bool {
        exists|i: int| 0 <= i < self.fields@.len() && #[trigger] self.fields@[i].name@ == name
    }

    /// The first field called `name`, if there is one.
    pub open spec fn spec_find_field(&self, name: Seq<char>) -> Option<Field> {
        match crate::first::first_where(
            self.fields@.len() as int,
            |i: int| self.fields@[i].name@ == name,
        ) {
            Some(i) => Some(self.fields@[i]),
            None => None,
        }
    }

    /// The first field called `name`.
    pub fn find_field(&self, name: &str) -> (found: Option<&Field>)
        ensures
            found is Some <==> self.has_field(name@),
            match found {
                Some(field) => self.spec_find_field(name@) == Some(*field),
                None => self.spec_find_field(name@) is None,
            },
            found matches Some(field) ==> exists|i: int|
                #[trigger] self.is_first_field_named(i, name@) && *field == self.fields@[i],
    {
        let ghost named = |i: int| self.fields@[i].name@ == name@;
        let mut i: usize = 0;
        while i < self.fields.len()
            invariant
                i <= self.fields@.len(),
                named == (|i: int| self.fields@[i].name@ == name@),
                forall|j: int| 0 <= j < i ==> self.fields@[j].name@ != name@,
                forall|j: int| 0 <= j < i ==> !#[trigger] named(j),
            decreases self.fields@.len() - i,
        {
            if str_eq(self.fields[i].name.as_str(), name) {
                proof {
                    assert(self.is_first_field_named(i as int, name@));
                    assert(named(i as int));
                    crate::first::lemma_first_where_is(
                        self.fields@.len() as int,
                        named,
                        i as int,
                    );
                }
                return Some(&self.fields[i]);
            }
            assert(!named(i as int));
            i += 1;
        }
        proof {
            crate::first::lemma_first_where(self.fields@.len() as int, named);
        }
        None
    }

    /// Whether `self.fields[i]` is the first endpoint of the relation `name`
    /// to the model `to` that is not called `exclude_field`.
    pub open spec fn is_first_endpoint(
        &self,
        i: int,
        to: Seq<char>,
        name: Seq<char>,
        exclude_field: Seq<char>,
    ) -> bool {
        &&& 0 <= i < self.fields@.len()
        &&& self.fields@[i].is_endpoint_of(to, name, exclude_field)
        &&& forall|j: int|
            0 <= j < i ==> !(#[trigger] self.fields@[j]).is_endpoint_of(to, name, exclude_field)
    }

    /// Whether the model has an endpoint of the relation `name` to the model
    /// `to` that is not called `exclude_field`.
    pub open spec fn has_endpoint(&self, to: Seq<char>, name: Seq<char>, exclude_field: Seq<char>)
        -> bool {
        exists|i: int|
            0 <= i < self.fields@.len() && (#[trigger] self.fields@[i]).is_endpoint_of(
                to,
                name,
                exclude_field,
            )
    }

    /// The first endpoint of the relation `name` to the model `to` that is
    /// not called `exclude_field`, if the model has one.
    pub open spec fn spec_related_field(
        &self,
        to: Seq<char>,
        name: Seq<char>,
        exclude_field: Seq<char>,
    ) -> Option<Field> {
        if self.has_endpoint(to, name, exclude_field) {
            Some(
                self.fields@[choose|i: int| self.is_first_endpoint(i, to, name, exclude_field)],
            )
        } else {
            None
        }
    }

    /// The first field that is an endpoint of the relation `name` to the
    /// model `to`. A field called `exclude_field` is passed over, so that in
    /// a relation of a model to itself a field is not taken for its own
    /// counterpart.
    pub fn related_field(&self, to: &str, name: &str, exclude_field: &str) -> (found: Option<
        &Field,
    >)
        ensures
            found is Some <==> self.has_endpoint(to@, name@, exclude_field@),
            found matches Some(field) ==> Some(*field) == self.spec_related_field(
                to@,
                name@,
                exclude_field@,
            ),
    {
        let mut i: usize = 0;
        while i < self.fields.len()
            invariant
                i <= self.fields@.len(),
                forall|j: int|
                    0 <= j < i ==> !(#[trigger] self.fields@[j]).is_endpoint_of(
                        to@,
                        name@,
                        exclude_field@,
                    ),
            decreases self.fields@.len() - i,
        {
            let field = &self.fields[i];
            if let FieldType::Relation(info) = &field.field_type {
                if str_eq(info.to.as_str(), to) && str_eq(info.name.as_str(), name) && !str_eq(
                    field.name.as_str(),
                    exclude_field,
                ) {
                    proof {
                        assert(self.is_first_endpoint(i as int, to@, name@, exclude_field@));
                        let k = choose|k: int|
                            self.is_first_endpoint(k, to@, name@, exclude_field@);
                        assert(self.is_first_endpoint(k, to@, name@, exclude_field@));
                        assert(k == i);
                    }
                    return Some(field);
                }
            }
            i += 1;
        }
        None
    }
}

impl Datamodel {
    /// A datamodel without models and enums.
    pub fn new() -> (datamodel: Datamodel)
        ensures
            datamodel.models@.len() == 0,
            datamodel.enums@.len() == 0,
    {
        Datamodel { enums: Vec::new(), models: Vec::new() }
    }

    /// Adds `model` after the models the datamodel has.
    pub fn add_model(&mut self, model: Model)
        ensures
            final(self).models@ == old(self).models@.push(model),
            final(self).enums == old(self).enums,
    {
        self.models.push(model);
    }

    /// Adds `en` after the enums the datamodel has.
    pub fn add_enum(&mut self, en: Enum)
        ensures
            final(self).enums@ == old(self).enums@.push(en),
            final(self).models == old(self).models,
    {
        self.enums.push(en);
    }

    /// The models, in declaration order.
    pub fn models(&self) -> (models: &Vec<Model>)
        ensures
            models == self.models,
    {
        &self.models
    }

    /// Whether `self.models[i]` is the first model called `name`.
    pub open spec fn is_first_model_named(&self, i: int, name: Seq<char>) -> bool {
        &&& 0 <= i < self.models@.len()
        &&& self.models@[i].name@ == name
        &&& forall|j: int| 0 <= j < i ==> self.models@[j].name@ != name
    }

    /// Whether some model is called `name`.
    pub open spec fn has_model(&self, name: Seq<char>) -> bool {
        exists|i: int| 0 <= i < self.models@.len() && #[trigger] self.models@[i].name@ == name
    }

    /// The first model called `name`, if there is one.
    pub open spec fn spec_find_model(&self, name: Seq<char>) -> Option<Model> {
        if self.has_model(name) {
            Some(self.models@[choose|i: int| self.is_first_model_named(i, name)])
        } else {
            None
        }
    }

    /// The first model called `name`.
    pub fn find_model(&self, name: &str) -> (found: Option<&Model>)
        ensures
            found is Some <==> self.has_model(name@),
            found matches Some(model) ==> Some(*model) == self.spec_find_model(name@),
    {
        let mut i: usize = 0;
        while i < self.models.len()
            invariant
                i <= self.models@.len(),
                forall|j: int| 0 <= j < i ==> self.models@[j].name@ != name@,
            decreases self.models@.len() - i,
        {
            if str_eq(self.models[i].name.as_str(), name) {
                proof {
                    assert(self.is_first_model_named(i as int, name@));
                    let k = choose|k: int| self.is_first_model_named(k, name@);
                    assert(self.is_first_model_named(k, name@));
                    assert(k == i);
                }
                return Some(&self.models[i]);
            }
            i += 1;
        }
        None
    }

    /// Whether some enum is called `name`.
    pub open spec fn has_enum(&self, name: Seq<char>) -> bool {
        exists|i: int| 0 <= i < self.enums@.len() && #[trigger] self.enums@[i].name@ == name
    }

    /// Whether `self.enums[i]` is the first enum called `name`.
    pub open spec fn is_first_enum_named(&self, i: int, name: Seq<char>) -> bool {
        &&& 0 <= i < self.enums@.len()
        &&& self.enums@[i].name@ == name
        &&& forall|j: int| 0 <= j < i ==> self.enums@[j].name@ != name
    }

    /// The first enum called `name`.
    pub fn find_enum(&self, name: &str) -> (found: Option<&Enum>)
        ensures
            found is Some <==> self.has_enum(name@),
            found matches Some(en) ==> exists|i: int|
                #[trigger] self.is_first_enum_named(i, name@) && *en == self.enums@[i],
    {
        let mut i: usize = 0;
        while i < self.enums.len()
            invariant
                i <= self.enums@.len(),
                forall|j: int| 0 <= j < i ==> self.enums@[j].name@ != name@,
            decreases self.enums@.len() - i,
        {
            if str_eq(self.enums[i].name.as_str(), name) {
                assert(self.is_first_enum_named(i as int, name@));
                return Some(&self.enums[i]);
            }
            i += 1;
        }
        None
    }
}

} // verus!
