//! The schema that the database of a datamodel has.
//!
//! Every model has a table, with a column for every field that holds one
//! value of a scalar or an enum, and a column with a foreign key for every
//! relation field that holds the reference of its relation. Every list of
//! scalars has a table of its own, after the table of its model. Every
//! relation between two lists has a table that links the two models; these
//! tables stand last.

use crate::convert::{
    column_of, companion, find_companion, is_convertible, is_side_a, is_stored_with,
    side_a_holds_column, stands_on_side_a, DatamodelConverter, NOT_CONVERTIBLE,
};
use crate::dml;
use crate::dml::{FieldArity, FieldType, OnDeleteStrategy, ScalarType};
use crate::errors::{ErrorView, ValidationError};
use crate::migration::schema::{
    Column, ColumnType, ColumnView, DatabaseSchema, ForeignKey, ForeignKeyView, Index, IndexType,
    IndexView, OnDelete, Table, TableView,
};
use crate::order::{in_order, order_of, ordered};
use crate::text::owned;
use vstd::prelude::*;
use vstd::string::*;

verus! {

/// The table of a model: its mapped name, or else its own.
pub open spec fn table_name_of(model: &dml::Model) -> Seq<char> {
    match model.database_name {
        Some(name) => name@,
        None => model.name@,
    }
}

/// The type of the column of a field that holds scalars or values of an
/// enum. The values of an enum are stored as text.
pub open spec fn column_type_of(field_type: FieldType) -> ColumnType {
    match field_type {
        FieldType::Base(scalar) => match scalar {
            ScalarType::Int => ColumnType::Int,
            ScalarType::Float => ColumnType::Float,
            ScalarType::Decimal => ColumnType::Float,
            ScalarType::Boolean => ColumnType::Boolean,
            ScalarType::DateTime => ColumnType::DateTime,
            ScalarType::String => ColumnType::String,
            ScalarType::Json => ColumnType::String,
            ScalarType::Bytes => ColumnType::String,
        },
        _ => ColumnType::String,
    }
}

/// The index of the first id field of `model`.
pub open spec fn id_index(model: &dml::Model) -> Option<int> {
    crate::first::first_where(model.fields@.len() as int, |i: int| model.fields@[i].is_id)
}

/// The type of the ids of `model`: that of its first id field, and `Int`
/// for a model without one.
pub open spec fn id_type_of(model: &dml::Model) -> ColumnType {
    match id_index(model) {
        Some(i) => column_type_of(model.fields@[i].field_type),
        None => ColumnType::Int,
    }
}

/// The column of the ids of `model`: that of its first id field, and `id`
/// for a model without one.
pub open spec fn id_column_of(model: &dml::Model) -> Seq<char> {
    match id_index(model) {
        Some(i) => column_of(&model.fields@[i]),
        None => "id"@,
    }
}

/// Whether `field`, a relation field of `model`, holds the reference of its
/// relation: the relation is stored in a column, and on the side of
/// `field`.
pub open spec fn holds_reference(datamodel: &dml::Datamodel, model: &dml::Model, field: &dml::Field) -> bool {
    match companion(datamodel, model, field) {
        Some((_, back)) => is_stored_with(model, field, &back),
        None => false,
    }
}

/// What the foreign key of `field` does on deletion: it cascades if the
/// field says so, and else does nothing.
pub open spec fn on_delete_of(field: &dml::Field) -> OnDelete {
    match field.field_type {
        FieldType::Relation(info) => if info.on_delete == OnDeleteStrategy::Cascade {
            OnDelete::Cascade
        } else {
            OnDelete::NoAction
        },
        _ => OnDelete::NoAction,
    }
}

/// The foreign key to the ids of `model`.
pub open spec fn key_to(model: &dml::Model, on_delete: OnDelete) -> ForeignKeyView {
    ForeignKeyView {
        name: None,
        table: table_name_of(model),
        column: id_column_of(model),
        on_delete,
    }
}

/// The columns that `field`, a field of `model`, gives to the table of
/// `model`: none for a list and for a relation field that holds no
/// reference, and else one.
pub open spec fn columns_from(datamodel: &dml::Datamodel, model: &dml::Model, field: &dml::Field) -> Seq<
    ColumnView,
> {
    match field.field_type {
        FieldType::Relation(_) => match companion(datamodel, model, field) {
            Some((related, _)) => if holds_reference(datamodel, model, field) {
                seq![
                    ColumnView {
                        name: column_of(field),
                        tpe: id_type_of(&related),
                        is_required: field.arity == FieldArity::Required,
                        foreign_key: Some(key_to(&related, on_delete_of(field))),
                    },
                ]
            } else {
                Seq::empty()
            },
            None => Seq::empty(),
        },
        _ => if field.arity == FieldArity::List {
            Seq::empty()
        } else {
            seq![
                ColumnView {
                    name: column_of(field),
                    tpe: column_type_of(field.field_type),
                    is_required: field.arity == FieldArity::Required,
                    foreign_key: None,
                },
            ]
        },
    }
}

/// The columns that the first `n` fields of `model` give to its table.
pub open spec fn columns_of_first(datamodel: &dml::Datamodel, model: &dml::Model, n: nat) -> Seq<
    ColumnView,
>
    decreases n,
{
    if n == 0 {
        Seq::empty()
    } else {
        columns_of_first(datamodel, model, (n - 1) as nat) + columns_from(
            datamodel,
            model,
            &model.fields@[n - 1],
        )
    }
}

/// The name of the index that keeps the column `column` of the table
/// `table` unique.
pub open spec fn unique_index_name(table: Seq<char>, column: Seq<char>) -> Seq<char> {
    table + "."@ + column + "._UNIQUE"@
}

/// The indexes that `field`, a field of `model`, gives to the table of
/// `model`: one if it holds one unique value of a scalar or an enum.
pub open spec fn indexes_from(model: &dml::Model, field: &dml::Field) -> Seq<IndexView> {
    if field.is_unique && !(field.field_type is Relation) && field.arity != FieldArity::List {
        seq![
            IndexView {
                name: unique_index_name(table_name_of(model), column_of(field)),
                columns: seq![column_of(field)],
                tpe: IndexType::Unique,
            },
        ]
    } else {
        Seq::empty()
    }
}

/// The indexes that the first `n` fields of `model` give to its table.
pub open spec fn indexes_of_first(model: &dml::Model, n: nat) -> Seq<IndexView>
    decreases n,
{
    if n == 0 {
        Seq::empty()
    } else {
        indexes_of_first(model, (n - 1) as nat) + indexes_from(model, &model.fields@[n - 1])
    }
}

/// The column of the field of `model` called `name`; `name` itself if
/// `model` has no such field.
pub open spec fn column_for(model: &dml::Model, name: Seq<char>) -> Seq<char> {
    match model.spec_find_field(name) {
        Some(field) => column_of(&field),
        None => name,
    }
}

/// The first `n` of `parts`, with `_` between them.
pub open spec fn underscored(parts: Seq<Seq<char>>, n: nat) -> Seq<char>
    decreases n,
{
    if n == 0 {
        Seq::empty()
    } else if n == 1 {
        parts[0]
    } else {
        underscored(parts, (n - 1) as nat) + "_"@ + parts[n - 1]
    }
}

/// The index that keeps unique criterion `k` of `model`: a unique index on
/// the columns of its fields, called like the table and these columns.
pub open spec fn criterion_index(model: &dml::Model) -> spec_fn(int) -> IndexView {
    |k: int|
        {
            let names = model.unique_criteria@[k].deep_view();
            let columns = Seq::new(names.len(), |i: int| column_for(model, names[i]));
            IndexView {
                name: unique_index_name(
                    table_name_of(model),
                    underscored(columns, columns.len()),
                ),
                columns,
                tpe: IndexType::Unique,
            }
        }
}

/// The indexes of the table of `model`: those of its unique fields, and
/// then those of its unique criteria.
pub open spec fn indexes_of(model: &dml::Model) -> Seq<IndexView> {
    indexes_of_first(model, model.fields@.len()) + Seq::new(
        model.unique_criteria@.len(),
        criterion_index(model),
    )
}

/// The table of `model`.
pub open spec fn model_table(datamodel: &dml::Datamodel, model: &dml::Model) -> TableView {
    TableView {
        name: table_name_of(model),
        columns: columns_of_first(datamodel, model, model.fields@.len()),
        indexes: indexes_of(model),
        primary_key_columns: match id_index(model) {
            Some(i) => seq![column_of(&model.fields@[i])],
            None => Seq::empty(),
        },
    }
}

/// The tables that `field`, a field of `model`, needs of its own: one if
/// it is a list of scalars or of values of an enum. The table is called
/// like the model and the field, and holds for every value the id of its
/// record, its position in the list and the value itself.
pub open spec fn list_tables_from(model: &dml::Model, field: &dml::Field) -> Seq<TableView> {
    if !(field.field_type is Relation) && field.arity == FieldArity::List {
        seq![
            TableView {
                name: model.name@ + "_"@ + field.name@,
                columns: seq![
                    ColumnView {
                        name: "nodeId"@,
                        tpe: id_type_of(model),
                        is_required: true,
                        foreign_key: Some(key_to(model, OnDelete::NoAction)),
                    },
                    ColumnView {
                        name: "position"@,
                        tpe: ColumnType::Int,
                        is_required: true,
                        foreign_key: None,
                    },
                    ColumnView {
                        name: "value"@,
                        tpe: column_type_of(field.field_type),
                        is_required: true,
                        foreign_key: None,
                    },
                ],
                indexes: Seq::empty(),
                primary_key_columns: seq!["nodeId"@, "position"@],
            },
        ]
    } else {
        Seq::empty()
    }
}

/// The tables that the first `n` fields of `model` need of their own.
pub open spec fn list_tables_of_first(model: &dml::Model, n: nat) -> Seq<TableView>
    decreases n,
{
    if n == 0 {
        Seq::empty()
    } else {
        list_tables_of_first(model, (n - 1) as nat) + list_tables_from(
            model,
            &model.fields@[n - 1],
        )
    }
}

/// The table of `model` and the tables of its lists.
pub open spec fn tables_of_model(datamodel: &dml::Datamodel, model: &dml::Model) -> Seq<TableView> {
    seq![model_table(datamodel, model)] + list_tables_of_first(model, model.fields@.len())
}

/// The tables of the first `n` models of `datamodel` and of their lists.
pub open spec fn tables_of_first(datamodel: &dml::Datamodel, n: nat) -> Seq<TableView>
    decreases n,
{
    if n == 0 {
        Seq::empty()
    } else {
        tables_of_first(datamodel, (n - 1) as nat) + tables_of_model(
            datamodel,
            &datamodel.models@[n - 1],
        )
    }
}

/// A column of a table that links two models: a required reference to the
/// ids of `model`.
pub open spec fn link_column(name: Seq<char>, model: &dml::Model) -> ColumnView {
    ColumnView {
        name,
        tpe: id_type_of(model),
        is_required: true,
        foreign_key: Some(key_to(model, OnDelete::NoAction)),
    }
}

/// The tables that link `model` to another model because of `field`: one
/// if `field` is the endpoint on side A of a relation between two lists.
/// The table is called like the relation after a `_`; its column `A` refers
/// to `model` and its column `B` to the other model.
pub open spec fn link_tables_from(datamodel: &dml::Datamodel, model: &dml::Model, field: &dml::Field) -> Seq<
    TableView,
> {
    match companion(datamodel, model, field) {
        Some((related, back)) => if is_side_a(model, field, &back) && field.arity
            == FieldArity::List && back.arity == FieldArity::List {
            seq![
                TableView {
                    name: "_"@ + field.field_type->Relation_0.name@,
                    columns: seq![link_column("A"@, model), link_column("B"@, &related)],
                    indexes: Seq::empty(),
                    primary_key_columns: Seq::empty(),
                },
            ]
        } else {
            Seq::empty()
        },
        None => Seq::empty(),
    }
}

/// The tables that link `model` to other models because of its first `n`
/// fields.
pub open spec fn link_tables_in_fields(datamodel: &dml::Datamodel, model: &dml::Model, n: nat) -> Seq<
    TableView,
>
    decreases n,
{
    if n == 0 {
        Seq::empty()
    } else {
        link_tables_in_fields(datamodel, model, (n - 1) as nat) + link_tables_from(
            datamodel,
            model,
            &model.fields@[n - 1],
        )
    }
}

/// The tables that link the first `n` models of `datamodel` to other
/// models.
pub open spec fn link_tables_of_first(datamodel: &dml::Datamodel, n: nat) -> Seq<TableView>
    decreases n,
{
    if n == 0 {
        Seq::empty()
    } else {
        link_tables_of_first(datamodel, (n - 1) as nat) + link_tables_in_fields(
            datamodel,
            &datamodel.models@[n - 1],
            datamodel.models@[n - 1].fields@.len(),
        )
    }
}

/// The tables that link the models of `datamodel`, in the order of their
/// names.
pub open spec fn link_tables(datamodel: &dml::Datamodel) -> Seq<TableView> {
    let declared = link_tables_of_first(datamodel, datamodel.models@.len());
    in_order(declared, Seq::new(declared.len(), |i: int| declared[i].name))
}

/// The schema that the database of `datamodel` has: the tables of its
/// models and of their lists, and then the tables that link its models.
pub open spec fn calculated(datamodel: &dml::Datamodel) -> Seq<TableView> {
    tables_of_first(datamodel, datamodel.models@.len()) + link_tables(datamodel)
}

/// The table of a model, see [`table_name_of`].
pub fn table_name(model: &dml::Model) -> (name: String)
    ensures
        name@ == table_name_of(model),
{
    match &model.database_name {
        Some(name) => name.clone(),
        None => model.name.clone(),
    }
}

/// The type of the column of a field, see [`column_type_of`].
pub fn column_type(field_type: &FieldType) -> (tpe: ColumnType)
    ensures
        tpe == column_type_of(*field_type),
{
    match field_type {
        FieldType::Base(scalar) => match scalar {
            ScalarType::Int => ColumnType::Int,
            ScalarType::Float => ColumnType::Float,
            ScalarType::Decimal => ColumnType::Float,
            ScalarType::Boolean => ColumnType::Boolean,
            ScalarType::DateTime => ColumnType::DateTime,
            ScalarType::String => ColumnType::String,
            ScalarType::Json => ColumnType::String,
            ScalarType::Bytes => ColumnType::String,
        },
        _ => ColumnType::String,
    }
}

/// The column of a field: its mapped name, or else its own.
pub fn column_name(field: &dml::Field) -> (name: String)
    ensures
        name@ == column_of(field),
{
    match &field.database_name {
        Some(name) => name.clone(),
        None => field.name.clone(),
    }
}

/// The first id field of `model`.
pub fn id_field(model: &dml::Model) -> (found: Option<&dml::Field>)
    ensures
        match found {
            Some(field) => id_index(model) matches Some(i) && model.fields@[i] == *field,
            None => id_index(model) is None,
        },
{
    let ghost is_id = |i: int| model.fields@[i].is_id;
    let mut i: usize = 0;
    while i < model.fields.len()
        invariant
            i <= model.fields@.len(),
            is_id == (|i: int| model.fields@[i].is_id),
            forall|j: int| 0 <= j < i ==> !#[trigger] is_id(j),
        decreases model.fields@.len() - i,
    {
        if model.fields[i].is_id {
            proof {
                assert(is_id(i as int));
                crate::first::lemma_first_where_is(model.fields@.len() as int, is_id, i as int);
            }
            return Some(&model.fields[i]);
        }
        assert(!is_id(i as int));
        i += 1;
    }
    proof {
        crate::first::lemma_first_where(model.fields@.len() as int, is_id);
    }
    None
}

/// The foreign key to the ids of `model`, see [`key_to`].
fn foreign_key_to(model: &dml::Model, on_delete: OnDelete) -> (key: ForeignKey)
    ensures
        key@ == key_to(model, on_delete),
{
    let column = match id_field(model) {
        Some(field) => column_name(field),
        None => owned("id"),
    };
    ForeignKey::new(table_name(model), column, on_delete)
}

/// The type of the ids of `model`, see [`id_type_of`].
fn id_type(model: &dml::Model) -> (tpe: ColumnType)
    ensures
        tpe == id_type_of(model),
{
    match id_field(model) {
        Some(field) => column_type(&field.field_type),
        None => ColumnType::Int,
    }
}

/// Whether the endpoint on side A holds the column, see
/// [`side_a_holds_column`].
fn a_holds_column(a: &dml::Field, b: &dml::Field) -> (holds: bool)
    ensures
        holds == side_a_holds_column(a, b),
{
    if a.arity == FieldArity::List {
        false
    } else if b.arity == FieldArity::List {
        true
    } else {
        let a_refers = match &a.field_type {
            FieldType::Relation(info) => info.to_fields.len() > 0,
            _ => false,
        };
        let b_refers = match &b.field_type {
            FieldType::Relation(info) => info.to_fields.len() > 0,
            _ => false,
        };
        a_refers && !b_refers
    }
}

/// What the foreign key of `field` does on deletion, see [`on_delete_of`].
fn on_delete(field: &dml::Field) -> (policy: OnDelete)
    ensures
        policy == on_delete_of(field),
{
    match &field.field_type {
        FieldType::Relation(info) => {
            if info.on_delete == OnDeleteStrategy::Cascade {
                OnDelete::Cascade
            } else {
                OnDelete::NoAction
            }
        },
        _ => OnDelete::NoAction,
    }
}

/// Adds to `columns` the columns that `field` gives to the table of
/// `model`, see [`columns_from`].
fn add_columns_from(
    datamodel: &dml::Datamodel,
    model: &dml::Model,
    field: &dml::Field,
    columns: &mut Vec<Column>,
)
    ensures
        final(columns).deep_view() == old(columns).deep_view() + columns_from(
            datamodel,
            model,
            field,
        ),
{
    let ghost before = columns.deep_view();
    match &field.field_type {
        FieldType::Relation(_) => {
            if let Some((related, back)) = find_companion(datamodel, model, field) {
                let both_lists = field.arity == FieldArity::List && back.arity == FieldArity::List;
                let holds = if stands_on_side_a(model, field, back) {
                    a_holds_column(field, back)
                } else {
                    !a_holds_column(back, field)
                };
                if !both_lists && holds {
                    let column = Column {
                        name: column_name(field),
                        tpe: id_type(related),
                        is_required: field.arity == FieldArity::Required,
                        foreign_key: Some(foreign_key_to(related, on_delete(field))),
                    };
                    columns.push(column);
                    assert(columns.deep_view() =~= before + seq![column@]);
                    return ;
                }
            }
        },
        _ => {
            if field.arity != FieldArity::List {
                let column = Column {
                    name: column_name(field),
                    tpe: column_type(&field.field_type),
                    is_required: field.arity == FieldArity::Required,
                    foreign_key: None,
                };
                columns.push(column);
                assert(columns.deep_view() =~= before + seq![column@]);
                return ;
            }
        },
    }
    assert(columns.deep_view() =~= before + Seq::<ColumnView>::empty());
}

/// Adds to `indexes` the indexes that `field` gives to the table of
/// `model`, see [`indexes_from`].
fn add_indexes_from(model: &dml::Model, field: &dml::Field, indexes: &mut Vec<Index>)
    ensures
        final(indexes).deep_view() == old(indexes).deep_view() + indexes_from(model, field),
{
    let ghost before = indexes.deep_view();
    let is_relation = match &field.field_type {
        FieldType::Relation(_) => true,
        _ => false,
    };
    if field.is_unique && !is_relation && field.arity != FieldArity::List {
        let column = column_name(field);
        let mut name = table_name(model);
        name.append(".");
        name.append(column.as_str());
        name.append("._UNIQUE");
        let mut columns: Vec<String> = Vec::new();
        columns.push(column);
        let index = Index { name, columns, tpe: IndexType::Unique };
        assert(index@.columns =~= seq![column_of(field)]);
        indexes.push(index);
        assert(indexes.deep_view() =~= before + seq![index@]);
    } else {
        assert(indexes.deep_view() =~= before + Seq::<IndexView>::empty());
    }
}

/// The index that keeps unique criterion `k` of `model`, see
/// [`criterion_index`].
fn index_of_criterion(model: &dml::Model, k: usize) -> (index: Index)
    requires
        k < model.unique_criteria@.len(),
    ensures
        index@ == criterion_index(model)(k as int),
{
    let names = &model.unique_criteria[k];
    let ghost views = names.deep_view();
    let ghost expected = Seq::new(views.len(), |i: int| column_for(model, views[i]));
    let mut columns: Vec<String> = Vec::new();
    let mut joined = String::new();
    assert(joined@ =~= underscored(expected, 0));
    let mut i: usize = 0;
    while i < names.len()
        invariant
            i <= names@.len(),
            views == names.deep_view(),
            expected == Seq::new(views.len(), |i: int| column_for(model, views[i])),
            columns@.len() == i,
            forall|j: int| 0 <= j < i ==> (#[trigger] columns@[j])@ == expected[j],
            joined@ == underscored(expected, i as nat),
        decreases names@.len() - i,
    {
        assert(views[i as int] == names@[i as int]@);
        let column = match model.find_field(names[i].as_str()) {
            Some(field) => column_name(field),
            None => names[i].clone(),
        };
        if i > 0 {
            joined.append("_");
        }
        joined.append(column.as_str());
        columns.push(column);
        assert(joined@ =~= underscored(expected, (i + 1) as nat));
        i += 1;
    }
    assert(columns.deep_view() =~= expected);
    let mut name = table_name(model);
    name.append(".");
    name.append(joined.as_str());
    name.append("._UNIQUE");
    Index { name, columns, tpe: IndexType::Unique }
}

/// The table of `model`, see [`model_table`].
fn table_of(datamodel: &dml::Datamodel, model: &dml::Model) -> (table: Table)
    ensures
        table@ == model_table(datamodel, model),
{
    let mut columns: Vec<Column> = Vec::new();
    let mut indexes: Vec<Index> = Vec::new();
    let mut j: usize = 0;
    assert(columns.deep_view() =~= columns_of_first(datamodel, model, 0));
    assert(indexes.deep_view() =~= indexes_of_first(model, 0));
    while j < model.fields.len()
        invariant
            j <= model.fields@.len(),
            columns.deep_view() == columns_of_first(datamodel, model, j as nat),
            indexes.deep_view() == indexes_of_first(model, j as nat),
        decreases model.fields@.len() - j,
    {
        add_columns_from(datamodel, model, &model.fields[j], &mut columns);
        add_indexes_from(model, &model.fields[j], &mut indexes);
        j += 1;
    }
    let ghost of_fields = indexes.deep_view();
    let ghost of_criteria = Seq::new(model.unique_criteria@.len(), criterion_index(model));
    let mut k: usize = 0;
    assert(indexes.deep_view() =~= of_fields + of_criteria.subrange(0, 0));
    while k < model.unique_criteria.len()
        invariant
            k <= model.unique_criteria@.len(),
            of_criteria == Seq::new(model.unique_criteria@.len(), criterion_index(model)),
            indexes.deep_view() == of_fields + of_criteria.subrange(0, k as int),
        decreases model.unique_criteria@.len() - k,
    {
        let ghost so_far = indexes.deep_view();
        let index = index_of_criterion(model, k);
        indexes.push(index);
        assert(indexes.deep_view() =~= so_far.push(of_criteria[k as int]));
        assert(of_criteria.subrange(0, k + 1) =~= of_criteria.subrange(0, k as int).push(
            of_criteria[k as int],
        ));
        assert(indexes.deep_view() =~= of_fields + of_criteria.subrange(0, k + 1));
        k += 1;
    }
    assert(of_criteria.subrange(0, k as int) =~= of_criteria);
    let mut primary_key_columns: Vec<String> = Vec::new();
    if let Some(field) = id_field(model) {
        primary_key_columns.push(column_name(field));
        assert(primary_key_columns.deep_view() =~= seq![column_of(field)]);
    } else {
        assert(primary_key_columns.deep_view() =~= Seq::<Seq<char>>::empty());
    }
    Table { name: table_name(model), columns, indexes, primary_key_columns }
}

/// Adds to `tables` the tables that `field` needs of its own, see
/// [`list_tables_from`].
fn add_list_tables_from(model: &dml::Model, field: &dml::Field, tables: &mut Vec<Table>)
    ensures
        final(tables).deep_view() == old(tables).deep_view() + list_tables_from(model, field),
{
    let ghost before = tables.deep_view();
    let is_relation = match &field.field_type {
        FieldType::Relation(_) => true,
        _ => false,
    };
    if !is_relation && field.arity == FieldArity::List {
        let mut name = model.name.clone();
        name.append("_");
        name.append(field.name.as_str());
        let mut columns: Vec<Column> = Vec::new();
        columns.push(
            Column {
                name: owned("nodeId"),
                tpe: id_type(model),
                is_required: true,
                foreign_key: Some(foreign_key_to(model, OnDelete::NoAction)),
            },
        );
        columns.push(
            Column {
                name: owned("position"),
                tpe: ColumnType::Int,
                is_required: true,
                foreign_key: None,
            },
        );
        columns.push(
            Column {
                name: owned("value"),
                tpe: column_type(&field.field_type),
                is_required: true,
                foreign_key: None,
            },
        );
        let mut primary_key_columns: Vec<String> = Vec::new();
        primary_key_columns.push(owned("nodeId"));
        primary_key_columns.push(owned("position"));
        let table = Table { name, columns, indexes: Vec::new(), primary_key_columns };
        proof {
            let expected = list_tables_from(model, field)[0];
            assert(table@.columns =~= expected.columns);
            assert(table@.indexes =~= expected.indexes);
            assert(table@.primary_key_columns =~= expected.primary_key_columns);
        }
        tables.push(table);
        assert(tables.deep_view() =~= before + seq![table@]);
    } else {
        assert(tables.deep_view() =~= before + Seq::<TableView>::empty());
    }
}

/// Adds to `tables` the table of `model` and the tables of its lists, see
/// [`tables_of_model`].
fn add_tables_of(datamodel: &dml::Datamodel, model: &dml::Model, tables: &mut Vec<Table>)
    ensures
        final(tables).deep_view() == old(tables).deep_view() + tables_of_model(datamodel, model),
{
    let ghost before = tables.deep_view();
    let table = table_of(datamodel, model);
    tables.push(table);
    let ghost with_table = tables.deep_view();
    assert(with_table =~= before + seq![model_table(datamodel, model)]);
    let mut j: usize = 0;
    assert(tables.deep_view() =~= with_table + list_tables_of_first(model, 0));
    while j < model.fields.len()
        invariant
            j <= model.fields@.len(),
            tables.deep_view() == with_table + list_tables_of_first(model, j as nat),
        decreases model.fields@.len() - j,
    {
        add_list_tables_from(model, &model.fields[j], tables);
        assert(tables.deep_view() =~= with_table + list_tables_of_first(model, (j + 1) as nat));
        j += 1;
    }
    assert(tables.deep_view() =~= before + tables_of_model(datamodel, model));
}

/// A column of a table that links two models, see [`link_column`].
fn link_column_to(name: &str, model: &dml::Model) -> (column: Column)
    ensures
        column@ == link_column(name@, model),
{
    Column {
        name: owned(name),
        tpe: id_type(model),
        is_required: true,
        foreign_key: Some(foreign_key_to(model, OnDelete::NoAction)),
    }
}

/// Adds to `tables` the tables that link `model` to another model because
/// of `field`, see [`link_tables_from`].
fn add_link_tables_from(
    datamodel: &dml::Datamodel,
    model: &dml::Model,
    field: &dml::Field,
    tables: &mut Vec<Table>,
)
    ensures
        final(tables).deep_view() == old(tables).deep_view() + link_tables_from(
            datamodel,
            model,
            field,
        ),
{
    let ghost before = tables.deep_view();
    if let Some((related, back)) = find_companion(datamodel, model, field) {
        if stands_on_side_a(model, field, back) && field.arity == FieldArity::List && back.arity
            == FieldArity::List {
            if let FieldType::Relation(info) = &field.field_type {
                let mut name = owned("_");
                name.append(info.name.as_str());
                let mut columns: Vec<Column> = Vec::new();
                columns.push(link_column_to("A", model));
                columns.push(link_column_to("B", related));
                let table = Table {
                    name,
                    columns,
                    indexes: Vec::new(),
                    primary_key_columns: Vec::new(),
                };
                proof {
                    let expected = link_tables_from(datamodel, model, field)[0];
                    assert(table@.columns =~= expected.columns);
                    assert(table@.indexes =~= expected.indexes);
                    assert(table@.primary_key_columns =~= expected.primary_key_columns);
                }
                tables.push(table);
                assert(tables.deep_view() =~= before + seq![table@]);
                return ;
            }
        }
    }
    assert(tables.deep_view() =~= before + Seq::<TableView>::empty());
}

/// Adds to `tables` the tables that link the models of `datamodel`, in the
/// order of their names, see [`link_tables`].
fn add_link_tables(datamodel: &dml::Datamodel, tables: &mut Vec<Table>)
    ensures
        final(tables).deep_view() == old(tables).deep_view() + link_tables(datamodel),
{
    let mut declared: Vec<Table> = Vec::new();
    assert(declared.deep_view() =~= Seq::<TableView>::empty());
    declare_link_tables(datamodel, &mut declared);
    assert(declared.deep_view() =~= link_tables_of_first(datamodel, datamodel.models@.len()));
    let ghost views = declared.deep_view();
    let mut names: Vec<String> = Vec::new();
    let mut i: usize = 0;
    while i < declared.len()
        invariant
            i <= declared@.len(),
            views == declared.deep_view(),
            names@.len() == i,
            forall|k: int| 0 <= k < i ==> (#[trigger] names@[k])@ == views[k].name,
        decreases declared@.len() - i,
    {
        assert(views[i as int] == declared@[i as int]@);
        names.push(declared[i].name.clone());
        i += 1;
    }
    assert(names.deep_view() =~= Seq::new(views.len(), |i: int| views[i].name));
    let order = order_of(&names);
    let ghost start = tables.deep_view();
    let ghost sorted = link_tables(datamodel);
    let mut k: usize = 0;
    assert(tables.deep_view() =~= start + sorted.subrange(0, 0));
    while k < order.len()
        invariant
            k <= order@.len(),
            order@.len() == declared@.len(),
            views == declared.deep_view(),
            sorted == in_order(views, Seq::new(views.len(), |i: int| views[i].name)),
            order@ == ordered(Seq::new(views.len(), |i: int| views[i].name), views.len()),
            forall|n: int| 0 <= n < order@.len() ==> #[trigger] order@[n] < declared@.len(),
            tables.deep_view() == start + sorted.subrange(0, k as int),
        decreases order@.len() - k,
    {
        let ghost so_far = tables.deep_view();
        assert(views[order@[k as int] as int] == declared@[order@[k as int] as int]@);
        let table = declared[order[k]].copy();
        tables.push(table);
        assert(tables.deep_view() =~= so_far.push(sorted[k as int]));
        assert(sorted.subrange(0, k + 1) =~= sorted.subrange(0, k as int).push(sorted[k as int]));
        assert(tables.deep_view() =~= start + sorted.subrange(0, k + 1));
        k += 1;
    }
    assert(sorted.subrange(0, k as int) =~= sorted);
}

/// Adds to `tables` the tables that link the models of `datamodel`, as they
/// are declared.
fn declare_link_tables(datamodel: &dml::Datamodel, tables: &mut Vec<Table>)
    ensures
        final(tables).deep_view() == old(tables).deep_view() + link_tables_of_first(
            datamodel,
            datamodel.models@.len(),
        ),
{
    let ghost start = tables.deep_view();
    let mut i: usize = 0;
    assert(tables.deep_view() =~= start + link_tables_of_first(datamodel, 0));
    while i < datamodel.models.len()
        invariant
            i <= datamodel.models@.len(),
            tables.deep_view() == start + link_tables_of_first(datamodel, i as nat),
        decreases datamodel.models@.len() - i,
    {
        let model = &datamodel.models[i];
        let ghost before = tables.deep_view();
        let mut j: usize = 0;
        assert(tables.deep_view() =~= before + link_tables_in_fields(datamodel, model, 0));
        while j < model.fields.len()
            invariant
                j <= model.fields@.len(),
                tables.deep_view() == before + link_tables_in_fields(datamodel, model, j as nat),
            decreases model.fields@.len() - j,
        {
            add_link_tables_from(datamodel, model, &model.fields[j], tables);
            assert(tables.deep_view() =~= before + link_tables_in_fields(
                datamodel,
                model,
                (j + 1) as nat,
            ));
            j += 1;
        }
        assert(tables.deep_view() =~= start + link_tables_of_first(datamodel, (i + 1) as nat));
        i += 1;
    }
}

/// Calculates the schemas of the databases of datamodels.
pub struct DatabaseSchemaCalculator {}

impl DatabaseSchemaCalculator {
    /// The schema that the database of `datamodel` has, see [`calculated`].
    /// A datamodel that cannot be converted has none.
    pub fn calculate(datamodel: &dml::Datamodel) -> (result: Result<
        DatabaseSchema,
        ValidationError,
    >)
        ensures
            match result {
                Ok(schema) => is_convertible(datamodel) && schema@ == calculated(datamodel),
                Err(e) => !is_convertible(datamodel) && e@ == (ErrorView::State {
                    message: NOT_CONVERTIBLE@,
                }),
            },
    {
        if let Err(e) = DatamodelConverter::convert(datamodel) {
            return Err(e);
        }
        let mut tables: Vec<Table> = Vec::new();
        let mut i: usize = 0;
        assert(tables.deep_view() =~= tables_of_first(datamodel, 0));
        while i < datamodel.models.len()
            invariant
                i <= datamodel.models@.len(),
                tables.deep_view() == tables_of_first(datamodel, i as nat),
            decreases datamodel.models@.len() - i,
        {
            add_tables_of(datamodel, &datamodel.models[i], &mut tables);
            i += 1;
        }
        add_link_tables(datamodel, &mut tables);
        Ok(DatabaseSchema { tables })
    }
}

} // verus!
