//! The steps that turn one schema into another.
//!
//! The steps come in four groups: new tables, tables that go, changes to
//! the columns and indexes of tables that stay, and at last what relations
//! bring about: columns with foreign keys, and tables that link models.
//! Where a schema has several tables of one name, or a table several
//! columns or indexes of one name, only the first counts.

use crate::convert::{is_convertible, NOT_CONVERTIBLE};
use crate::dml;
use crate::errors::{ErrorView, ValidationError};
use crate::gather::{gather, lemma_gather_nothing};
use crate::migration::calculate::{calculated, DatabaseSchemaCalculator};
use crate::migration::renames::{
    column_renames, find_column_renames, find_table_renames, table_renames, ColumnRename,
    ColumnRenameView, TableRename, TableRenameView,
};
use crate::migration::schema::{
    column_index, find_column, index_index, table_index, Column, ColumnView, DatabaseSchema,
    ForeignKey, Index, IndexView, Table, TableView,
};
use crate::migration::steps::{MigrationStep, StepView};
use crate::text::str_eq;
use crate::validator::directive::field::copy_names;
use vstd::prelude::*;

verus! {

/// Whether table `i` of `tables` is the first of its name.
pub open spec fn is_first_table(tables: Seq<TableView>, i: int) -> bool {
    table_index(tables, tables[i].name) == Some(i)
}

/// Whether column `j` of `columns` is the first of its name.
pub open spec fn is_first_column(columns: Seq<ColumnView>, j: int) -> bool {
    column_index(columns, columns[j].name) == Some(j)
}

/// Whether index `j` of `indexes` is the first of its name.
pub open spec fn is_first_index(indexes: Seq<IndexView>, j: int) -> bool {
    index_index(indexes, indexes[j].name) == Some(j)
}

/// Whether a table links two models: it has columns, and all of them have
/// foreign keys.
pub open spec fn is_link_table(table: TableView) -> bool {
    table.columns.len() > 0 && forall|c: int|
        0 <= c < table.columns.len() ==> (#[trigger] table.columns[c]).foreign_key is Some
}

/// Whether a table holds the values of a list: its primary key is made of
/// `nodeId` and `position`.
pub open spec fn is_list_table(table: TableView) -> bool {
    table.primary_key_columns == seq!["nodeId"@, "position"@]
}

/// Whether a column of `table` is there because of a relation: it has a
/// foreign key, and `table` holds no values of a list.
pub open spec fn is_relation_column(table: TableView, column: ColumnView) -> bool {
    column.foreign_key is Some && !is_list_table(table)
}

/// The columns of `table` that are not there because of a relation.
pub open spec fn own_column(table: TableView) -> spec_fn(int) -> Seq<ColumnView> {
    |j: int|
        if is_relation_column(table, table.columns[j]) {
            Seq::empty()
        } else {
            seq![table.columns[j]]
        }
}

/// `table` without the columns that are there because of a relation.
pub open spec fn without_relations(table: TableView) -> TableView {
    TableView { columns: gather(table.columns.len(), own_column(table)), ..table }
}

/// Whether `rename` takes effect from the columns `before` of a table to
/// the table `t`: it is about `t`, the column was there under its old name
/// and not under its new name, and is there under its new name and no
/// longer under its old name.
pub open spec fn renames_column(before: Seq<ColumnView>, t: TableView, rename: ColumnRenameView) -> bool {
    &&& rename.table == t.name
    &&& column_index(before, rename.from) is Some
    &&& column_index(t.columns, rename.from) is None
    &&& column_index(t.columns, rename.to) is Some
    &&& column_index(before, rename.to) is None
}

/// Whether rename `r` of `renames` is carried out: it takes effect, and no
/// rename before it that takes effect is about the same old or new name.
pub open spec fn is_column_rename(
    before: Seq<ColumnView>,
    t: TableView,
    renames: Seq<ColumnRenameView>,
    r: int,
) -> bool {
    &&& 0 <= r < renames.len()
    &&& renames_column(before, t, renames[r])
    &&& forall|k: int|
        0 <= k < r ==> !(renames_column(before, t, #[trigger] renames[k]) && (renames[k].from
            == renames[r].from || renames[k].to == renames[r].to))
}

/// Whether the column called `name` is renamed, `name` being its old name
/// if `old` holds and its new name if not.
pub open spec fn is_renamed_column(
    before: Seq<ColumnView>,
    t: TableView,
    renames: Seq<ColumnRenameView>,
    name: Seq<char>,
    old: bool,
) -> bool {
    exists|r: int|
        #[trigger] is_column_rename(before, t, renames, r) && (if old {
            renames[r].from
        } else {
            renames[r].to
        }) == name
}

/// Whether `rename` takes effect from the schema `prev` to the schema
/// `next`: a table that links models was there under its old name and not
/// under its new name, and one is there under its new name and none under
/// its old name.
pub open spec fn renames_table(prev: Seq<TableView>, next: Seq<TableView>, rename: TableRenameView) -> bool {
    &&& table_index(prev, rename.from) matches Some(k) && is_link_table(prev[k])
    &&& table_index(next, rename.from) is None
    &&& table_index(next, rename.to) matches Some(i) && is_link_table(next[i])
    &&& table_index(prev, rename.to) is None
}

/// Whether rename `r` of `renames` is carried out: it takes effect, and no
/// rename before it that takes effect is about the same old or new name.
pub open spec fn is_table_rename(
    prev: Seq<TableView>,
    next: Seq<TableView>,
    renames: Seq<TableRenameView>,
    r: int,
) -> bool {
    &&& 0 <= r < renames.len()
    &&& renames_table(prev, next, renames[r])
    &&& forall|k: int|
        0 <= k < r ==> !(renames_table(prev, next, #[trigger] renames[k]) && (renames[k].from
            == renames[r].from || renames[k].to == renames[r].to))
}

/// Whether the table called `name` is renamed, `name` being its old name if
/// `old` holds and its new name if not.
pub open spec fn is_renamed_table(
    prev: Seq<TableView>,
    next: Seq<TableView>,
    renames: Seq<TableRenameView>,
    name: Seq<char>,
    old: bool,
) -> bool {
    exists|r: int|
        #[trigger] is_table_rename(prev, next, renames, r) && (if old {
            renames[r].from
        } else {
            renames[r].to
        }) == name
}

/// The step that makes table `i` of `next`, if it is new and links no
/// models: the table as it is before relations add to it.
pub open spec fn created_table(prev: Seq<TableView>, next: Seq<TableView>) -> spec_fn(int) -> Seq<
    StepView,
> {
    |i: int|
        if is_first_table(next, i) && !is_link_table(next[i]) && table_index(prev, next[i].name)
            is None {
            seq![StepView::CreateTable(without_relations(next[i]))]
        } else {
            Seq::empty()
        }
}

/// The step that drops table `i` of `prev`, if it is there no longer and
/// linked no models.
pub open spec fn dropped_table(prev: Seq<TableView>, next: Seq<TableView>) -> spec_fn(int) -> Seq<
    StepView,
> {
    |i: int|
        if is_first_table(prev, i) && !is_link_table(prev[i]) && table_index(next, prev[i].name)
            is None {
            seq![StepView::DropTable { name: prev[i].name }]
        } else {
            Seq::empty()
        }
}

/// The step that adds column `j` of the table `t`, if there is no column
/// of that name among `before`, the columns that the table had, and none
/// that is renamed to it. `relations` says whether the columns of relations
/// are meant, or the others.
pub open spec fn added_column(
    before: Seq<ColumnView>,
    t: TableView,
    renames: Seq<ColumnRenameView>,
    relations: bool,
) -> spec_fn(int) -> Seq<StepView> {
    |j: int|
        if is_first_column(t.columns, j) && is_relation_column(t, t.columns[j]) == relations
            && column_index(before, t.columns[j].name) is None && !is_renamed_column(
            before,
            t,
            renames,
            t.columns[j].name,
            false,
        ) {
            seq![StepView::AddColumn { table: t.name, column: t.columns[j] }]
        } else {
            Seq::empty()
        }
}

/// The step that drops column `j` of the table `p`, if the table `t` that
/// it becomes has no column of that name, and the column is not renamed.
pub open spec fn dropped_column(
    p: TableView,
    t: TableView,
    renames: Seq<ColumnRenameView>,
    relations: bool,
) -> spec_fn(int) -> Seq<StepView> {
    |j: int|
        if is_first_column(p.columns, j) && is_relation_column(p, p.columns[j]) == relations
            && column_index(t.columns, p.columns[j].name) is None && !is_renamed_column(
            p.columns,
            t,
            renames,
            p.columns[j].name,
            true,
        ) {
            seq![StepView::DropColumn { table: t.name, name: p.columns[j].name }]
        } else {
            Seq::empty()
        }
}

/// The step that alters the column of the table `p` to column `j` of the
/// table `t` that `p` becomes, if `p` has a column of that name and the
/// two differ. A column that is or was there because of a relation is
/// altered with the relations, and any other with the columns.
pub open spec fn altered_column(p: TableView, t: TableView, relations: bool) -> spec_fn(
    int,
) -> Seq<StepView> {
    |j: int|
        match column_index(p.columns, t.columns[j].name) {
            Some(m) => if is_first_column(t.columns, j) && (is_relation_column(t, t.columns[j])
                || is_relation_column(p, p.columns[m])) == relations && p.columns[m]
                != t.columns[j] {
                seq![
                    StepView::AlterColumn {
                        table: t.name,
                        name: t.columns[j].name,
                        column: t.columns[j],
                    },
                ]
            } else {
                Seq::empty()
            },
            None => Seq::empty(),
        }
}

/// The step that makes index `j` of the table `t`, if the table `p` that
/// it was has no index of that name.
pub open spec fn created_index(p: TableView, t: TableView) -> spec_fn(int) -> Seq<StepView> {
    |j: int|
        if is_first_index(t.indexes, j) && index_index(p.indexes, t.indexes[j].name) is None {
            seq![StepView::CreateIndex { table: t.name, index: t.indexes[j] }]
        } else {
            Seq::empty()
        }
}

/// The step that drops index `j` of the table `p`, if the table `t` that
/// it becomes has no index of that name.
pub open spec fn dropped_index(p: TableView, t: TableView) -> spec_fn(int) -> Seq<StepView> {
    |j: int|
        if is_first_index(p.indexes, j) && index_index(t.indexes, p.indexes[j].name) is None {
            seq![StepView::DropIndex { table: t.name, name: p.indexes[j].name }]
        } else {
            Seq::empty()
        }
}

/// The steps that carry out rename `r` of `renames` from the table `p` to
/// the table `t`, if it is carried out: the column is renamed, and altered
/// if it was not only renamed.
pub open spec fn renamed_column(p: TableView, t: TableView, renames: Seq<ColumnRenameView>) -> spec_fn(
    int,
) -> Seq<StepView> {
    |r: int|
        if is_column_rename(p.columns, t, renames, r) {
            let old = p.columns[column_index(p.columns, renames[r].from)->0];
            let new = t.columns[column_index(t.columns, renames[r].to)->0];
            seq![
                StepView::RenameColumn {
                    table: t.name,
                    name: renames[r].from,
                    new_name: renames[r].to,
                },
            ] + (if (ColumnView { name: renames[r].to, ..old }) != new {
                seq![StepView::AlterColumn { table: t.name, name: renames[r].to, column: new }]
            } else {
                Seq::empty()
            })
        } else {
            Seq::empty()
        }
}

/// The steps that turn the columns of the table `p` into those of the
/// table `t`: columns are added, dropped, altered and renamed, in this
/// order. `relations` says whether the columns of relations are meant, or
/// the others; renamed columns go with the others.
pub open spec fn column_changes(
    p: TableView,
    t: TableView,
    renames: Seq<ColumnRenameView>,
    relations: bool,
) -> Seq<StepView> {
    gather(t.columns.len(), added_column(p.columns, t, renames, relations)) + gather(
        p.columns.len(),
        dropped_column(p, t, renames, relations),
    ) + gather(t.columns.len(), altered_column(p, t, relations)) + (if relations {
        Seq::empty()
    } else {
        gather(renames.len(), renamed_column(p, t, renames))
    })
}

/// The steps that turn the indexes of the table `p` into those of the
/// table `t`: indexes are made and dropped, in this order.
pub open spec fn index_changes(p: TableView, t: TableView) -> Seq<StepView> {
    gather(t.indexes.len(), created_index(p, t)) + gather(p.indexes.len(), dropped_index(p, t))
}

/// The steps that change table `i` of `next`, if it was there before: what
/// changes of its columns but those of relations, and of its indexes.
pub open spec fn altered_table(
    prev: Seq<TableView>,
    next: Seq<TableView>,
    renames: Seq<ColumnRenameView>,
) -> spec_fn(int) -> Seq<StepView> {
    |i: int|
        match table_index(prev, next[i].name) {
            Some(k) => if is_first_table(next, i) {
                column_changes(prev[k], next[i], renames, false) + index_changes(
                    prev[k],
                    next[i],
                )
            } else {
                Seq::empty()
            },
            None => Seq::empty(),
        }
}

/// The steps that relations bring about at table `i` of `next`. A table
/// that was there before has its columns of relations changed. A new table
/// that links models is made, unless a table is renamed to it, and any
/// other new table gets its columns of relations.
pub open spec fn related_table(
    prev: Seq<TableView>,
    next: Seq<TableView>,
    renames: Seq<ColumnRenameView>,
    tables: Seq<TableRenameView>,
) -> spec_fn(int) -> Seq<StepView> {
    |i: int|
        if is_first_table(next, i) {
            match table_index(prev, next[i].name) {
                Some(k) => column_changes(prev[k], next[i], renames, true),
                None => if is_link_table(next[i]) {
                    if is_renamed_table(prev, next, tables, next[i].name, false) {
                        Seq::empty()
                    } else {
                        seq![StepView::CreateTable(next[i])]
                    }
                } else {
                    gather(
                        next[i].columns.len(),
                        added_column(Seq::empty(), next[i], Seq::empty(), true),
                    )
                },
            }
        } else {
            Seq::empty()
        }
}

/// The steps that carry out rename `r` of `tables`, if it is carried out:
/// the table is renamed, and its columns are changed if it was not only
/// renamed.
pub open spec fn renamed_table(
    prev: Seq<TableView>,
    next: Seq<TableView>,
    tables: Seq<TableRenameView>,
) -> spec_fn(int) -> Seq<StepView> {
    |r: int|
        if is_table_rename(prev, next, tables, r) {
            let old = prev[table_index(prev, tables[r].from)->0];
            let new = next[table_index(next, tables[r].to)->0];
            seq![StepView::RenameTable { name: tables[r].from, new_name: tables[r].to }]
                + column_changes(
                TableView { name: tables[r].to, ..old },
                new,
                Seq::empty(),
                true,
            )
        } else {
            Seq::empty()
        }
}

/// The step that drops table `i` of `prev`, if it is there no longer,
/// linked models and is not renamed.
pub open spec fn dropped_link_table(
    prev: Seq<TableView>,
    next: Seq<TableView>,
    tables: Seq<TableRenameView>,
) -> spec_fn(int) -> Seq<StepView> {
    |i: int|
        if is_first_table(prev, i) && is_link_table(prev[i]) && table_index(next, prev[i].name)
            is None && !is_renamed_table(prev, next, tables, prev[i].name, true) {
            seq![StepView::DropTable { name: prev[i].name }]
        } else {
            Seq::empty()
        }
}

/// The steps that turn the schema `prev` into the schema `next`, where
/// `renames` and `tables` say what is only called otherwise: new tables are
/// made, tables that are there no longer are dropped, the columns and
/// indexes of the tables that stay are changed, and then relations bring
/// about their columns and tables.
pub open spec fn difference(
    prev: Seq<TableView>,
    next: Seq<TableView>,
    renames: Seq<ColumnRenameView>,
    tables: Seq<TableRenameView>,
) -> Seq<StepView> {
    gather(next.len(), created_table(prev, next)) + gather(prev.len(), dropped_table(prev, next))
        + gather(next.len(), altered_table(prev, next, renames)) + gather(
        next.len(),
        related_table(prev, next, renames, tables),
    ) + gather(tables.len(), renamed_table(prev, next, tables)) + gather(
        prev.len(),
        dropped_link_table(prev, next, tables),
    )
}

/// The schema of the database before a migration: that of the datamodel
/// before, or the schema without tables.
pub open spec fn schema_before(previous: Option<&dml::Datamodel>) -> Seq<TableView> {
    match previous {
        Some(datamodel) => calculated(datamodel),
        None => Seq::empty(),
    }
}

/// The steps of the migration from the datamodel `previous`, or from an
/// empty database, to the datamodel `next`.
pub open spec fn inferred(previous: Option<&dml::Datamodel>, next: &dml::Datamodel) -> Seq<
    StepView,
> {
    difference(
        schema_before(previous),
        calculated(next),
        column_renames(previous, next),
        table_renames(previous, next),
    )
}

/// Whether no step arises at table `i` of a schema that is compared with
/// itself.
spec fn is_unchanged_at(
    schema: Seq<TableView>,
    renames: Seq<ColumnRenameView>,
    tables: Seq<TableRenameView>,
    i: int,
) -> bool {
    &&& created_table(schema, schema)(i).len() == 0
    &&& dropped_table(schema, schema)(i).len() == 0
    &&& dropped_link_table(schema, schema, tables)(i).len() == 0
    &&& altered_table(schema, schema, renames)(i).len() == 0
    &&& related_table(schema, schema, renames, tables)(i).len() == 0
}

/// A schema differs from itself in nothing, whatever is said to be only
/// called otherwise.
pub proof fn lemma_no_difference(
    schema: Seq<TableView>,
    renames: Seq<ColumnRenameView>,
    tables: Seq<TableRenameView>,
)
    ensures
        difference(schema, schema, renames, tables) == Seq::<StepView>::empty(),
{
    let n = schema.len();
    assert forall|i: int| 0 <= i < n implies is_unchanged_at(schema, renames, tables, i) by {
        let named = |k: int| schema[k].name == schema[i].name;
        assert(named(i));
        crate::first::lemma_first_where(n as int, named);
        if is_first_table(schema, i) {
            lemma_table_is_unchanged(schema[i], renames);
        }
    }
    assert forall|i: int| 0 <= i < n implies (#[trigger] created_table(schema, schema)(i)).len()
        == 0 by {
        assert(is_unchanged_at(schema, renames, tables, i));
    }
    assert forall|i: int| 0 <= i < n implies (#[trigger] dropped_table(schema, schema)(i)).len()
        == 0 by {
        assert(is_unchanged_at(schema, renames, tables, i));
    }
    assert forall|i: int| 0 <= i < n implies (#[trigger] altered_table(schema, schema, renames)(
        i,
    )).len() == 0 by {
        assert(is_unchanged_at(schema, renames, tables, i));
    }
    assert forall|i: int| 0 <= i < n implies (#[trigger] related_table(
        schema,
        schema,
        renames,
        tables,
    )(i)).len() == 0 by {
        assert(is_unchanged_at(schema, renames, tables, i));
    }
    assert forall|i: int| 0 <= i < n implies (#[trigger] dropped_link_table(
        schema,
        schema,
        tables,
    )(i)).len() == 0 by {
        assert(is_unchanged_at(schema, renames, tables, i));
    }
    assert forall|r: int| 0 <= r < tables.len() implies (#[trigger] renamed_table(
        schema,
        schema,
        tables,
    )(r)).len() == 0 by {}
    lemma_gather_nothing(n, created_table(schema, schema));
    lemma_gather_nothing(n, dropped_table(schema, schema));
    lemma_gather_nothing(n, altered_table(schema, schema, renames));
    lemma_gather_nothing(n, related_table(schema, schema, renames, tables));
    lemma_gather_nothing(tables.len(), renamed_table(schema, schema, tables));
    lemma_gather_nothing(n, dropped_link_table(schema, schema, tables));
}

/// A table differs from itself in nothing.
proof fn lemma_table_is_unchanged(table: TableView, renames: Seq<ColumnRenameView>)
    ensures
        column_changes(table, table, renames, false) == Seq::<StepView>::empty(),
        column_changes(table, table, renames, true) == Seq::<StepView>::empty(),
        index_changes(table, table) == Seq::<StepView>::empty(),
{
    let columns = table.columns;
    assert forall|j: int| 0 <= j < columns.len() implies #[trigger] column_index(
        columns,
        columns[j].name,
    ) is Some by {
        let named = |k: int| columns[k].name == columns[j].name;
        assert(named(j));
        crate::first::lemma_first_where(columns.len() as int, named);
    }
    assert forall|j: int, relations: bool| 0 <= j < columns.len() implies (#[trigger] added_column(
        columns,
        table,
        renames,
        relations,
    )(j)).len() == 0 by {
        assert(column_index(columns, columns[j].name) is Some);
    }
    assert forall|j: int, relations: bool|
        0 <= j < columns.len() implies (#[trigger] dropped_column(
        table,
        table,
        renames,
        relations,
    )(j)).len() == 0 by {
        assert(column_index(columns, columns[j].name) is Some);
    }
    assert forall|j: int, relations: bool|
        0 <= j < columns.len() implies (#[trigger] altered_column(table, table, relations)(
        j,
    )).len() == 0 by {
        assert(column_index(columns, columns[j].name) is Some);
    }
    assert forall|r: int| 0 <= r < renames.len() implies (#[trigger] renamed_column(
        table,
        table,
        renames,
    )(r)).len() == 0 by {}
    lemma_gather_nothing(columns.len(), added_column(columns, table, renames, false));
    lemma_gather_nothing(columns.len(), dropped_column(table, table, renames, false));
    lemma_gather_nothing(columns.len(), altered_column(table, table, false));
    lemma_gather_nothing(columns.len(), added_column(columns, table, renames, true));
    lemma_gather_nothing(columns.len(), dropped_column(table, table, renames, true));
    lemma_gather_nothing(columns.len(), altered_column(table, table, true));
    lemma_gather_nothing(renames.len(), renamed_column(table, table, renames));
    let indexes = table.indexes;
    assert forall|j: int| 0 <= j < indexes.len() implies #[trigger] index_index(
        indexes,
        indexes[j].name,
    ) is Some by {
        let named = |k: int| indexes[k].name == indexes[j].name;
        assert(named(j));
        crate::first::lemma_first_where(indexes.len() as int, named);
    }
    assert forall|j: int| 0 <= j < indexes.len() implies (#[trigger] created_index(table, table)(
        j,
    )).len() == 0 by {
        assert(index_index(indexes, indexes[j].name) is Some);
    }
    assert forall|j: int| 0 <= j < indexes.len() implies (#[trigger] dropped_index(table, table)(
        j,
    )).len() == 0 by {
        assert(index_index(indexes, indexes[j].name) is Some);
    }
    lemma_gather_nothing(indexes.len(), created_index(table, table));
    lemma_gather_nothing(indexes.len(), dropped_index(table, table));
}

/// Migration is idempotent: the migration from a datamodel to itself has
/// no steps.
pub proof fn lemma_migration_is_idempotent(datamodel: &dml::Datamodel)
    ensures
        inferred(Some(datamodel), datamodel) == Seq::<StepView>::empty(),
{
    lemma_no_difference(
        calculated(datamodel),
        column_renames(Some(datamodel), datamodel),
        table_renames(Some(datamodel), datamodel),
    );
}

/// Whether two texts that may be missing are the same.
fn same_name(first: &Option<String>, second: &Option<String>) -> (same: bool)
    ensures
        same == (first.deep_view() == second.deep_view()),
{
    match first {
        Some(a) => match second {
            Some(b) => str_eq(a.as_str(), b.as_str()),
            None => false,
        },
        None => second.is_none(),
    }
}

/// Whether two foreign keys that may be missing are the same.
fn same_key(first: &Option<ForeignKey>, second: &Option<ForeignKey>) -> (same: bool)
    ensures
        same == (first.deep_view() == second.deep_view()),
{
    match first {
        Some(a) => match second {
            Some(b) => same_name(&a.name, &b.name) && str_eq(a.table.as_str(), b.table.as_str())
                && str_eq(a.column.as_str(), b.column.as_str()) && a.on_delete == b.on_delete,
            None => false,
        },
        None => second.is_none(),
    }
}

/// Whether two columns are the same.
pub fn same_column(first: &Column, second: &Column) -> (same: bool)
    ensures
        same == (first@ == second@),
{
    str_eq(first.name.as_str(), second.name.as_str()) && first.tpe == second.tpe
        && first.is_required == second.is_required && same_key(
        &first.foreign_key,
        &second.foreign_key,
    )
}

/// Whether a table links two models, see [`is_link_table`].
pub fn links_models(table: &Table) -> (links: bool)
    ensures
        links == is_link_table(table@),
{
    if table.columns.len() == 0 {
        return false;
    }
    let mut c: usize = 0;
    while c < table.columns.len()
        invariant
            c <= table.columns@.len(),
            table.columns@.len() > 0,
            forall|k: int| 0 <= k < c ==> (#[trigger] table@.columns[k]).foreign_key is Some,
        decreases table.columns@.len() - c,
    {
        if table.columns[c].foreign_key.is_none() {
            assert(table@.columns[c as int].foreign_key is None);
            return false;
        }
        assert(table@.columns[c as int] == table.columns@[c as int]@);
        c += 1;
    }
    true
}

/// Whether a table holds the values of a list, see [`is_list_table`].
pub fn holds_list(table: &Table) -> (holds: bool)
    ensures
        holds == is_list_table(table@),
{
    let key = &table.primary_key_columns;
    if key.len() == 2 && str_eq(key[0].as_str(), "nodeId") && str_eq(key[1].as_str(), "position") {
        assert(table@.primary_key_columns =~= seq!["nodeId"@, "position"@]);
        true
    } else {
        proof {
            if is_list_table(table@) {
                assert(table@.primary_key_columns.len() == 2);
                assert(table@.primary_key_columns[0] == "nodeId"@);
                assert(table@.primary_key_columns[1] == "position"@);
            }
        }
        false
    }
}

/// Whether column `j` of `table` is there because of a relation, see
/// [`is_relation_column`].
fn is_of_relation(table: &Table, j: usize) -> (is: bool)
    requires
        j < table.columns@.len(),
    ensures
        is == is_relation_column(table@, table@.columns[j as int]),
{
    table.columns[j].foreign_key.is_some() && !holds_list(table)
}

/// `table` without the columns that are there because of a relation, see
/// [`without_relations`].
fn strip_relations(table: &Table) -> (stripped: Table)
    ensures
        stripped@ == without_relations(table@),
{
    let mut columns: Vec<Column> = Vec::new();
    let ghost piece = own_column(table@);
    let mut j: usize = 0;
    assert(columns.deep_view() =~= gather(0, piece));
    while j < table.columns.len()
        invariant
            j <= table.columns@.len(),
            piece == own_column(table@),
            columns.deep_view() == gather(j as nat, piece),
        decreases table.columns@.len() - j,
    {
        let ghost before = columns.deep_view();
        if !is_of_relation(table, j) {
            let column = table.columns[j].copy();
            columns.push(column);
            assert(columns.deep_view() =~= before + piece(j as int));
        } else {
            assert(columns.deep_view() =~= before + piece(j as int));
        }
        j += 1;
    }
    let mut indexes: Vec<Index> = Vec::new();
    let mut k: usize = 0;
    while k < table.indexes.len()
        invariant
            k <= table.indexes@.len(),
            indexes@.len() == k,
            forall|n: int| 0 <= n < k ==> (#[trigger] indexes@[n])@ == table.indexes@[n]@,
        decreases table.indexes@.len() - k,
    {
        indexes.push(table.indexes[k].copy());
        k += 1;
    }
    let stripped = Table {
        name: table.name.clone(),
        columns,
        indexes,
        primary_key_columns: copy_names(&table.primary_key_columns),
    };
    assert(stripped@.indexes =~= table@.indexes);
    stripped
}

/// Whether `rename` takes effect, see [`renames_column`].
fn takes_effect(before: &Vec<Column>, t: &Table, rename: &ColumnRename) -> (takes: bool)
    ensures
        takes == renames_column(before.deep_view(), t@, rename@),
{
    str_eq(rename.table.as_str(), t.name.as_str()) && find_column(before, rename.from.as_str()).is_some()
        && t.column_position(rename.from.as_str()).is_none() && t.column_position(
        rename.to.as_str(),
    ).is_some() && find_column(before, rename.to.as_str()).is_none()
}

/// Whether rename `r` of `renames` is carried out, see
/// [`is_column_rename`].
fn is_carried_out(before: &Vec<Column>, t: &Table, renames: &Vec<ColumnRename>, r: usize) -> (is:
    bool)
    requires
        r < renames@.len(),
    ensures
        is == is_column_rename(before.deep_view(), t@, renames.deep_view(), r as int),
{
    let ghost views = renames.deep_view();
    assert(views[r as int] == renames@[r as int]@);
    if !takes_effect(before, t, &renames[r]) {
        return false;
    }
    let mut k: usize = 0;
    while k < r
        invariant
            k <= r,
            r < renames@.len(),
            views == renames.deep_view(),
            forall|n: int|
                0 <= n < k ==> !(renames_column(before.deep_view(), t@, #[trigger] views[n]) && (
                views[n].from == views[r as int].from || views[n].to == views[r as int].to)),
        decreases r - k,
    {
        assert(views[k as int] == renames@[k as int]@);
        if takes_effect(before, t, &renames[k]) && (str_eq(
            renames[k].from.as_str(),
            renames[r].from.as_str(),
        ) || str_eq(renames[k].to.as_str(), renames[r].to.as_str())) {
            return false;
        }
        k += 1;
    }
    true
}

/// Whether the column called `name` is renamed, see [`is_renamed_column`].
fn is_renamed(before: &Vec<Column>, t: &Table, renames: &Vec<ColumnRename>, name: &str, old: bool) -> (is:
    bool)
    ensures
        is == is_renamed_column(before.deep_view(), t@, renames.deep_view(), name@, old),
{
    let ghost views = renames.deep_view();
    let mut r: usize = 0;
    while r < renames.len()
        invariant
            r <= renames@.len(),
            views == renames.deep_view(),
            forall|n: int|
                0 <= n < r ==> !(#[trigger] is_column_rename(before.deep_view(), t@, views, n) && (
                if old {
                    views[n].from
                } else {
                    views[n].to
                }) == name@),
        decreases renames@.len() - r,
    {
        assert(views[r as int] == renames@[r as int]@);
        let side = if old {
            renames[r].from.as_str()
        } else {
            renames[r].to.as_str()
        };
        if is_carried_out(before, t, renames, r) && str_eq(side, name) {
            return true;
        }
        r += 1;
    }
    false
}

/// Adds to `steps` the steps that add columns of `t`, see [`added_column`].
fn add_added_columns(
    before: &Vec<Column>,
    t: &Table,
    renames: &Vec<ColumnRename>,
    relations: bool,
    steps: &mut Vec<MigrationStep>,
)
    ensures
        final(steps).deep_view() == old(steps).deep_view() + gather(
            t@.columns.len(),
            added_column(before.deep_view(), t@, renames.deep_view(), relations),
        ),
{
    let ghost start = steps.deep_view();
    let ghost piece = added_column(before.deep_view(), t@, renames.deep_view(), relations);
    let mut j: usize = 0;
    assert(steps.deep_view() =~= start + gather(0, piece));
    while j < t.columns.len()
        invariant
            j <= t.columns@.len(),
            piece == added_column(before.deep_view(), t@, renames.deep_view(), relations),
            steps.deep_view() == start + gather(j as nat, piece),
        decreases t.columns@.len() - j,
    {
        let ghost so_far = steps.deep_view();
        let column = &t.columns[j];
        assert(t@.columns[j as int] == column@);
        let is_first = match t.column_position(column.name.as_str()) {
            Some(first) => first == j,
            None => false,
        };
        if is_first && is_of_relation(t, j) == relations && find_column(
            before,
            column.name.as_str(),
        ).is_none() && !is_renamed(before, t, renames, column.name.as_str(), false) {
            let step = MigrationStep::AddColumn { table: t.name.clone(), column: column.copy() };
            steps.push(step);
            assert(steps.deep_view() =~= so_far + piece(j as int));
        } else {
            assert(steps.deep_view() =~= so_far + piece(j as int));
        }
        assert(steps.deep_view() =~= start + gather((j + 1) as nat, piece));
        j += 1;
    }
}

/// Adds to `steps` the steps that drop columns of `p`, see
/// [`dropped_column`].
fn add_dropped_columns(
    p: &Table,
    t: &Table,
    renames: &Vec<ColumnRename>,
    relations: bool,
    steps: &mut Vec<MigrationStep>,
)
    ensures
        final(steps).deep_view() == old(steps).deep_view() + gather(
            p@.columns.len(),
            dropped_column(p@, t@, renames.deep_view(), relations),
        ),
{
    let ghost start = steps.deep_view();
    let ghost piece = dropped_column(p@, t@, renames.deep_view(), relations);
    let mut j: usize = 0;
    assert(steps.deep_view() =~= start + gather(0, piece));
    while j < p.columns.len()
        invariant
            j <= p.columns@.len(),
            piece == dropped_column(p@, t@, renames.deep_view(), relations),
            steps.deep_view() == start + gather(j as nat, piece),
        decreases p.columns@.len() - j,
    {
        let ghost so_far = steps.deep_view();
        let column = &p.columns[j];
        assert(p@.columns[j as int] == column@);
        let is_first = match p.column_position(column.name.as_str()) {
            Some(first) => first == j,
            None => false,
        };
        if is_first && is_of_relation(p, j) == relations && t.column_position(
            column.name.as_str(),
        ).is_none() && !is_renamed(&p.columns, t, renames, column.name.as_str(), true) {
            let step = MigrationStep::DropColumn {
                table: t.name.clone(),
                name: column.name.clone(),
            };
            steps.push(step);
            assert(steps.deep_view() =~= so_far + piece(j as int));
        } else {
            assert(steps.deep_view() =~= so_far + piece(j as int));
        }
        assert(steps.deep_view() =~= start + gather((j + 1) as nat, piece));
        j += 1;
    }
}

/// Adds to `steps` the steps that alter columns of `p`, see
/// [`altered_column`].
fn add_altered_columns(p: &Table, t: &Table, relations: bool, steps: &mut Vec<MigrationStep>)
    ensures
        final(steps).deep_view() == old(steps).deep_view() + gather(
            t@.columns.len(),
            altered_column(p@, t@, relations),
        ),
{
    let ghost start = steps.deep_view();
    let ghost piece = altered_column(p@, t@, relations);
    let mut j: usize = 0;
    assert(steps.deep_view() =~= start + gather(0, piece));
    while j < t.columns.len()
        invariant
            j <= t.columns@.len(),
            piece == altered_column(p@, t@, relations),
            steps.deep_view() == start + gather(j as nat, piece),
        decreases t.columns@.len() - j,
    {
        let ghost so_far = steps.deep_view();
        let column = &t.columns[j];
        assert(t@.columns[j as int] == column@);
        let is_first = match t.column_position(column.name.as_str()) {
            Some(first) => first == j,
            None => false,
        };
        let mut altered = false;
        if let Some(m) = p.column_position(column.name.as_str()) {
            assert(p@.columns[m as int] == p.columns@[m as int]@);
            if is_first && (is_of_relation(t, j) || is_of_relation(p, m)) == relations
                && !same_column(&p.columns[m], column) {
                altered = true;
            }
        }
        if altered {
            let step = MigrationStep::AlterColumn {
                table: t.name.clone(),
                name: column.name.clone(),
                column: column.copy(),
            };
            steps.push(step);
            assert(steps.deep_view() =~= so_far + piece(j as int));
        } else {
            assert(steps.deep_view() =~= so_far + piece(j as int));
        }
        assert(steps.deep_view() =~= start + gather((j + 1) as nat, piece));
        j += 1;
    }
}

/// Adds to `steps` the steps that carry out the renames of columns, see
/// [`renamed_column`].
fn add_renamed_columns(p: &Table, t: &Table, renames: &Vec<ColumnRename>, steps: &mut Vec<
    MigrationStep,
>)
    ensures
        final(steps).deep_view() == old(steps).deep_view() + gather(
            renames@.len(),
            renamed_column(p@, t@, renames.deep_view()),
        ),
{
    let ghost start = steps.deep_view();
    let ghost views = renames.deep_view();
    let ghost piece = renamed_column(p@, t@, views);
    let mut r: usize = 0;
    assert(steps.deep_view() =~= start + gather(0, piece));
    while r < renames.len()
        invariant
            r <= renames@.len(),
            views == renames.deep_view(),
            piece == renamed_column(p@, t@, views),
            steps.deep_view() == start + gather(r as nat, piece),
        decreases renames@.len() - r,
    {
        let ghost so_far = steps.deep_view();
        let rename = &renames[r];
        assert(views[r as int] == rename@);
        if is_carried_out(&p.columns, t, renames, r) {
            let from = p.column_position(rename.from.as_str()).unwrap();
            let to = t.column_position(rename.to.as_str()).unwrap();
            assert(p@.columns[from as int] == p.columns@[from as int]@);
            assert(t@.columns[to as int] == t.columns@[to as int]@);
            let mut renamed = p.columns[from].copy();
            renamed.name = rename.to.clone();
            let only_renamed = same_column(&renamed, &t.columns[to]);
            steps.push(
                MigrationStep::RenameColumn {
                    table: t.name.clone(),
                    name: rename.from.clone(),
                    new_name: rename.to.clone(),
                },
            );
            if !only_renamed {
                steps.push(
                    MigrationStep::AlterColumn {
                        table: t.name.clone(),
                        name: rename.to.clone(),
                        column: t.columns[to].copy(),
                    },
                );
            }
            assert(steps.deep_view() =~= so_far + piece(r as int));
        } else {
            assert(steps.deep_view() =~= so_far + piece(r as int));
        }
        assert(steps.deep_view() =~= start + gather((r + 1) as nat, piece));
        r += 1;
    }
}

/// Adds to `steps` the steps that turn the columns of `p` into those of
/// `t`, see [`column_changes`].
fn add_column_changes(
    p: &Table,
    t: &Table,
    renames: &Vec<ColumnRename>,
    relations: bool,
    steps: &mut Vec<MigrationStep>,
)
    ensures
        final(steps).deep_view() == old(steps).deep_view() + column_changes(
            p@,
            t@,
            renames.deep_view(),
            relations,
        ),
{
    add_added_columns(&p.columns, t, renames, relations, steps);
    add_dropped_columns(p, t, renames, relations, steps);
    add_altered_columns(p, t, relations, steps);
    if !relations {
        add_renamed_columns(p, t, renames, steps);
    }
    assert(steps.deep_view() =~= old(steps).deep_view() + column_changes(
        p@,
        t@,
        renames.deep_view(),
        relations,
    ));
}

/// Adds to `steps` the steps that turn the indexes of `p` into those of
/// `t`, see [`index_changes`].
fn add_index_changes(p: &Table, t: &Table, steps: &mut Vec<MigrationStep>)
    ensures
        final(steps).deep_view() == old(steps).deep_view() + index_changes(p@, t@),
{
    let ghost start = steps.deep_view();
    let ghost made = created_index(p@, t@);
    let mut j: usize = 0;
    assert(steps.deep_view() =~= start + gather(0, made));
    while j < t.indexes.len()
        invariant
            j <= t.indexes@.len(),
            made == created_index(p@, t@),
            steps.deep_view() == start + gather(j as nat, made),
        decreases t.indexes@.len() - j,
    {
        let ghost so_far = steps.deep_view();
        let index = &t.indexes[j];
        assert(t@.indexes[j as int] == index@);
        let is_first = match t.index_position(index.name.as_str()) {
            Some(first) => first == j,
            None => false,
        };
        if is_first && p.index_position(index.name.as_str()).is_none() {
            let step = MigrationStep::CreateIndex { table: t.name.clone(), index: index.copy() };
            steps.push(step);
            assert(steps.deep_view() =~= so_far + made(j as int));
        } else {
            assert(steps.deep_view() =~= so_far + made(j as int));
        }
        assert(steps.deep_view() =~= start + gather((j + 1) as nat, made));
        j += 1;
    }
    let ghost middle = steps.deep_view();
    let ghost gone = dropped_index(p@, t@);
    let mut k: usize = 0;
    assert(steps.deep_view() =~= middle + gather(0, gone));
    while k < p.indexes.len()
        invariant
            k <= p.indexes@.len(),
            gone == dropped_index(p@, t@),
            steps.deep_view() == middle + gather(k as nat, gone),
        decreases p.indexes@.len() - k,
    {
        let ghost so_far = steps.deep_view();
        let index = &p.indexes[k];
        assert(p@.indexes[k as int] == index@);
        let is_first = match p.index_position(index.name.as_str()) {
            Some(first) => first == k,
            None => false,
        };
        if is_first && t.index_position(index.name.as_str()).is_none() {
            let step = MigrationStep::DropIndex { table: t.name.clone(), name: index.name.clone() };
            steps.push(step);
            assert(steps.deep_view() =~= so_far + gone(k as int));
        } else {
            assert(steps.deep_view() =~= so_far + gone(k as int));
        }
        assert(steps.deep_view() =~= middle + gather((k + 1) as nat, gone));
        k += 1;
    }
    assert(steps.deep_view() =~= start + index_changes(p@, t@));
}

/// Whether table `i` of `schema` is the first of its name.
fn is_first(schema: &DatabaseSchema, i: usize) -> (is: bool)
    requires
        i < schema.tables@.len(),
    ensures
        is == is_first_table(schema@, i as int),
{
    assert(schema@[i as int] == schema.tables@[i as int]@);
    match schema.table_position(schema.tables[i].name.as_str()) {
        Some(first) => first == i,
        None => false,
    }
}

/// Adds to `steps` the steps that make new tables and drop tables that are
/// there no longer, but for tables that link models.
fn add_created_and_dropped(prev: &DatabaseSchema, next: &DatabaseSchema, steps: &mut Vec<
    MigrationStep,
>)
    ensures
        final(steps).deep_view() == old(steps).deep_view() + gather(
            next@.len(),
            created_table(prev@, next@),
        ) + gather(prev@.len(), dropped_table(prev@, next@)),
{
    let ghost start = steps.deep_view();
    let ghost made = created_table(prev@, next@);
    let mut i: usize = 0;
    assert(steps.deep_view() =~= start + gather(0, made));
    while i < next.tables.len()
        invariant
            i <= next.tables@.len(),
            made == created_table(prev@, next@),
            steps.deep_view() == start + gather(i as nat, made),
        decreases next.tables@.len() - i,
    {
        let ghost so_far = steps.deep_view();
        let table = &next.tables[i];
        assert(next@[i as int] == table@);
        if is_first(next, i) && !links_models(table) && prev.table_position(
            table.name.as_str(),
        ).is_none() {
            let step = MigrationStep::CreateTable(strip_relations(table));
            steps.push(step);
            assert(steps.deep_view() =~= so_far + made(i as int));
        } else {
            assert(steps.deep_view() =~= so_far + made(i as int));
        }
        assert(steps.deep_view() =~= start + gather((i + 1) as nat, made));
        i += 1;
    }
    let ghost middle = steps.deep_view();
    let ghost gone = dropped_table(prev@, next@);
    let mut k: usize = 0;
    assert(steps.deep_view() =~= middle + gather(0, gone));
    while k < prev.tables.len()
        invariant
            k <= prev.tables@.len(),
            gone == dropped_table(prev@, next@),
            steps.deep_view() == middle + gather(k as nat, gone),
        decreases prev.tables@.len() - k,
    {
        let ghost so_far = steps.deep_view();
        let table = &prev.tables[k];
        assert(prev@[k as int] == table@);
        if is_first(prev, k) && !links_models(table) && next.table_position(
            table.name.as_str(),
        ).is_none() {
            let step = MigrationStep::DropTable { name: table.name.clone() };
            steps.push(step);
            assert(steps.deep_view() =~= so_far + gone(k as int));
        } else {
            assert(steps.deep_view() =~= so_far + gone(k as int));
        }
        assert(steps.deep_view() =~= middle + gather((k + 1) as nat, gone));
        k += 1;
    }
}

/// Adds to `steps` the steps that change the tables that stay, but for
/// what relations bring about.
fn add_altered(
    prev: &DatabaseSchema,
    next: &DatabaseSchema,
    renames: &Vec<ColumnRename>,
    steps: &mut Vec<MigrationStep>,
)
    ensures
        final(steps).deep_view() == old(steps).deep_view() + gather(
            next@.len(),
            altered_table(prev@, next@, renames.deep_view()),
        ),
{
    let ghost start = steps.deep_view();
    let ghost piece = altered_table(prev@, next@, renames.deep_view());
    let mut i: usize = 0;
    assert(steps.deep_view() =~= start + gather(0, piece));
    while i < next.tables.len()
        invariant
            i <= next.tables@.len(),
            piece == altered_table(prev@, next@, renames.deep_view()),
            steps.deep_view() == start + gather(i as nat, piece),
        decreases next.tables@.len() - i,
    {
        let ghost so_far = steps.deep_view();
        let table = &next.tables[i];
        assert(next@[i as int] == table@);
        let mut changed = false;
        if let Some(k) = prev.table_position(table.name.as_str()) {
            assert(prev@[k as int] == prev.tables@[k as int]@);
            if is_first(next, i) {
                add_column_changes(&prev.tables[k], table, renames, false, steps);
                add_index_changes(&prev.tables[k], table, steps);
                changed = true;
                assert(steps.deep_view() =~= so_far + piece(i as int));
            }
        }
        if !changed {
            assert(steps.deep_view() =~= so_far + piece(i as int));
        }
        assert(steps.deep_view() =~= start + gather((i + 1) as nat, piece));
        i += 1;
    }
}

/// Whether `rename` takes effect, see [`renames_table`].
fn takes_effect_on_tables(prev: &DatabaseSchema, next: &DatabaseSchema, rename: &TableRename) -> (takes:
    bool)
    ensures
        takes == renames_table(prev@, next@, rename@),
{
    let was = match prev.table_position(rename.from.as_str()) {
        Some(k) => {
            assert(prev@[k as int] == prev.tables@[k as int]@);
            links_models(&prev.tables[k])
        },
        None => false,
    };
    let is = match next.table_position(rename.to.as_str()) {
        Some(i) => {
            assert(next@[i as int] == next.tables@[i as int]@);
            links_models(&next.tables[i])
        },
        None => false,
    };
    was && is && next.table_position(rename.from.as_str()).is_none() && prev.table_position(
        rename.to.as_str(),
    ).is_none()
}

/// Whether rename `r` of `renames` is carried out, see
/// [`is_table_rename`].
fn is_table_carried_out(
    prev: &DatabaseSchema,
    next: &DatabaseSchema,
    renames: &Vec<TableRename>,
    r: usize,
) -> (is: bool)
    requires
        r < renames@.len(),
    ensures
        is == is_table_rename(prev@, next@, renames.deep_view(), r as int),
{
    let ghost views = renames.deep_view();
    assert(views[r as int] == renames@[r as int]@);
    if !takes_effect_on_tables(prev, next, &renames[r]) {
        return false;
    }
    let mut k: usize = 0;
    while k < r
        invariant
            k <= r,
            r < renames@.len(),
            views == renames.deep_view(),
            forall|n: int|
                0 <= n < k ==> !(renames_table(prev@, next@, #[trigger] views[n]) && (
                views[n].from == views[r as int].from || views[n].to == views[r as int].to)),
        decreases r - k,
    {
        assert(views[k as int] == renames@[k as int]@);
        if takes_effect_on_tables(prev, next, &renames[k]) && (str_eq(
            renames[k].from.as_str(),
            renames[r].from.as_str(),
        ) || str_eq(renames[k].to.as_str(), renames[r].to.as_str())) {
            return false;
        }
        k += 1;
    }
    true
}

/// Whether the table called `name` is renamed, see [`is_renamed_table`].
fn is_table_renamed(
    prev: &DatabaseSchema,
    next: &DatabaseSchema,
    renames: &Vec<TableRename>,
    name: &str,
    old: bool,
) -> (is: bool)
    ensures
        is == is_renamed_table(prev@, next@, renames.deep_view(), name@, old),
{
    let ghost views = renames.deep_view();
    let mut r: usize = 0;
    while r < renames.len()
        invariant
            r <= renames@.len(),
            views == renames.deep_view(),
            forall|n: int|
                0 <= n < r ==> !(#[trigger] is_table_rename(prev@, next@, views, n) && (if old {
                    views[n].from
                } else {
                    views[n].to
                }) == name@),
        decreases renames@.len() - r,
    {
        assert(views[r as int] == renames@[r as int]@);
        let side = if old {
            renames[r].from.as_str()
        } else {
            renames[r].to.as_str()
        };
        if is_table_carried_out(prev, next, renames, r) && str_eq(side, name) {
            return true;
        }
        r += 1;
    }
    false
}

/// Adds to `steps` the steps that relations bring about at the tables of
/// `next`, see [`related_table`].
fn add_related(
    prev: &DatabaseSchema,
    next: &DatabaseSchema,
    renames: &Vec<ColumnRename>,
    tables: &Vec<TableRename>,
    steps: &mut Vec<MigrationStep>,
)
    ensures
        final(steps).deep_view() == old(steps).deep_view() + gather(
            next@.len(),
            related_table(prev@, next@, renames.deep_view(), tables.deep_view()),
        ),
{
    let ghost start = steps.deep_view();
    let ghost piece = related_table(prev@, next@, renames.deep_view(), tables.deep_view());
    let mut i: usize = 0;
    assert(steps.deep_view() =~= start + gather(0, piece));
    while i < next.tables.len()
        invariant
            i <= next.tables@.len(),
            piece == related_table(prev@, next@, renames.deep_view(), tables.deep_view()),
            steps.deep_view() == start + gather(i as nat, piece),
        decreases next.tables@.len() - i,
    {
        let ghost so_far = steps.deep_view();
        let table = &next.tables[i];
        assert(next@[i as int] == table@);
        if is_first(next, i) {
            match prev.table_position(table.name.as_str()) {
                Some(k) => {
                    assert(prev@[k as int] == prev.tables@[k as int]@);
                    add_column_changes(&prev.tables[k], table, renames, true, steps);
                },
                None => {
                    if links_models(table) {
                        if !is_table_renamed(prev, next, tables, table.name.as_str(), false) {
                            let step = MigrationStep::CreateTable(table.copy());
                            steps.push(step);
                            assert(steps.deep_view() =~= so_far + seq![step@]);
                        }
                    } else {
                        let none: Vec<Column> = Vec::new();
                        assert(none.deep_view() =~= Seq::<ColumnView>::empty());
                        let no_renames: Vec<ColumnRename> = Vec::new();
                        assert(no_renames.deep_view() =~= Seq::<ColumnRenameView>::empty());
                        add_added_columns(&none, table, &no_renames, true, steps);
                    }
                },
            }
            assert(steps.deep_view() =~= so_far + piece(i as int));
        } else {
            assert(steps.deep_view() =~= so_far + piece(i as int));
        }
        assert(steps.deep_view() =~= start + gather((i + 1) as nat, piece));
        i += 1;
    }
}

/// Adds to `steps` the steps that carry out the renames of tables, and
/// those that drop the tables that linked models and are there no longer.
fn add_renamed_and_dropped_links(
    prev: &DatabaseSchema,
    next: &DatabaseSchema,
    tables: &Vec<TableRename>,
    steps: &mut Vec<MigrationStep>,
)
    ensures
        final(steps).deep_view() == old(steps).deep_view() + gather(
            tables@.len(),
            renamed_table(prev@, next@, tables.deep_view()),
        ) + gather(prev@.len(), dropped_link_table(prev@, next@, tables.deep_view())),
{
    let ghost start = steps.deep_view();
    let ghost views = tables.deep_view();
    let ghost piece = renamed_table(prev@, next@, views);
    let mut r: usize = 0;
    assert(steps.deep_view() =~= start + gather(0, piece));
    while r < tables.len()
        invariant
            r <= tables@.len(),
            views == tables.deep_view(),
            piece == renamed_table(prev@, next@, views),
            steps.deep_view() == start + gather(r as nat, piece),
        decreases tables@.len() - r,
    {
        let ghost so_far = steps.deep_view();
        let rename = &tables[r];
        assert(views[r as int] == rename@);
        if is_table_carried_out(prev, next, tables, r) {
            let from = prev.table_position(rename.from.as_str()).unwrap();
            let to = next.table_position(rename.to.as_str()).unwrap();
            assert(prev@[from as int] == prev.tables@[from as int]@);
            assert(next@[to as int] == next.tables@[to as int]@);
            let mut renamed = prev.tables[from].copy();
            renamed.name = rename.to.clone();
            steps.push(
                MigrationStep::RenameTable {
                    name: rename.from.clone(),
                    new_name: rename.to.clone(),
                },
            );
            let no_renames: Vec<ColumnRename> = Vec::new();
            assert(no_renames.deep_view() =~= Seq::<ColumnRenameView>::empty());
            add_column_changes(&renamed, &next.tables[to], &no_renames, true, steps);
            assert(steps.deep_view() =~= so_far + piece(r as int));
        } else {
            assert(steps.deep_view() =~= so_far + piece(r as int));
        }
        assert(steps.deep_view() =~= start + gather((r + 1) as nat, piece));
        r += 1;
    }
    let ghost middle = steps.deep_view();
    let ghost gone = dropped_link_table(prev@, next@, views);
    let mut k: usize = 0;
    assert(steps.deep_view() =~= middle + gather(0, gone));
    while k < prev.tables.len()
        invariant
            k <= prev.tables@.len(),
            views == tables.deep_view(),
            gone == dropped_link_table(prev@, next@, views),
            steps.deep_view() == middle + gather(k as nat, gone),
        decreases prev.tables@.len() - k,
    {
        let ghost so_far = steps.deep_view();
        let table = &prev.tables[k];
        assert(prev@[k as int] == table@);
        if is_first(prev, k) && links_models(table) && next.table_position(
            table.name.as_str(),
        ).is_none() && !is_table_renamed(prev, next, tables, table.name.as_str(), true) {
            let step = MigrationStep::DropTable { name: table.name.clone() };
            steps.push(step);
            assert(steps.deep_view() =~= so_far + gone(k as int));
        } else {
            assert(steps.deep_view() =~= so_far + gone(k as int));
        }
        assert(steps.deep_view() =~= middle + gather((k + 1) as nat, gone));
        k += 1;
    }
}

/// The steps that turn the schema `prev` into the schema `next`, where
/// `renames` and `tables` say what is only called otherwise, see
/// [`difference`].
pub fn diff(
    prev: &DatabaseSchema,
    next: &DatabaseSchema,
    renames: &Vec<ColumnRename>,
    tables: &Vec<TableRename>,
) -> (steps: Vec<MigrationStep>)
    ensures
        steps.deep_view() == difference(prev@, next@, renames.deep_view(), tables.deep_view()),
{
    let mut steps: Vec<MigrationStep> = Vec::new();
    assert(steps.deep_view() =~= Seq::<StepView>::empty());
    add_created_and_dropped(prev, next, &mut steps);
    add_altered(prev, next, renames, &mut steps);
    add_related(prev, next, renames, tables, &mut steps);
    add_renamed_and_dropped_links(prev, next, tables, &mut steps);
    assert(steps.deep_view() =~= difference(
        prev@,
        next@,
        renames.deep_view(),
        tables.deep_view(),
    ));
    steps
}

/// The steps of the migration from the datamodel `previous`, or from an
/// empty database, to the datamodel `next`, see [`inferred`]. Datamodels
/// that cannot be converted have no migration.
pub fn infer(previous: Option<&dml::Datamodel>, next: &dml::Datamodel) -> (result: Result<
    Vec<MigrationStep>,
    ValidationError,
>)
    ensures
        match result {
            Ok(steps) => {
                &&& is_convertible(next)
                &&& previous matches Some(before) ==> is_convertible(before)
                &&& steps.deep_view() == inferred(previous, next)
            },
            Err(e) => {
                &&& !is_convertible(next) || (previous matches Some(before) && !is_convertible(
                    before,
                ))
                &&& e@ == (ErrorView::State { message: NOT_CONVERTIBLE@ })
            },
        },
{
    let before = match previous {
        Some(datamodel) => match DatabaseSchemaCalculator::calculate(datamodel) {
            Ok(schema) => schema,
            Err(e) => {
                return Err(e);
            },
        },
        None => DatabaseSchema::empty(),
    };
    let after = match DatabaseSchemaCalculator::calculate(next) {
        Ok(schema) => schema,
        Err(e) => {
            return Err(e);
        },
    };
    let renames = find_column_renames(previous, next);
    let tables = find_table_renames(previous, next);
    Ok(diff(&before, &after, &renames, &tables))
}

} // verus!
