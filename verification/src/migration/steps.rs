//! The steps of a migration, and what each does to a schema.

use crate::migration::schema::{
    column_index, index_index, table_index, Column, ColumnView, DatabaseSchema, ForeignKey,
    Index, IndexView, Table, TableView,
};
use crate::validator::directive::field::copy_names;
use vstd::prelude::*;

verus! {

/// One change to the schema of a database.
#[derive(Clone, Debug, PartialEq)]
pub enum MigrationStep {
    /// A new table.
    CreateTable(Table),
    /// The table called `name` goes.
    DropTable { name: String },
    /// The table called `name` is called `new_name` from now on.
    RenameTable { name: String, new_name: String },
    /// A new column at the end of the table called `table`.
    AddColumn { table: String, column: Column },
    /// The column called `name` of the table called `table` goes.
    DropColumn { table: String, name: String },
    /// The column called `name` of the table called `table` becomes
    /// `column`.
    AlterColumn { table: String, name: String, column: Column },
    /// The column called `name` of the table called `table` is called
    /// `new_name` from now on.
    RenameColumn { table: String, name: String, new_name: String },
    /// A new index of the table called `table`.
    CreateIndex { table: String, index: Index },
    /// The index called `name` of the table called `table` goes.
    DropIndex { table: String, name: String },
}

/// One change to the schema of a database, as plain values.
pub enum StepView {
    CreateTable(TableView),
    DropTable { name: Seq<char> },
    RenameTable { name: Seq<char>, new_name: Seq<char> },
    AddColumn { table: Seq<char>, column: ColumnView },
    DropColumn { table: Seq<char>, name: Seq<char> },
    AlterColumn { table: Seq<char>, name: Seq<char>, column: ColumnView },
    RenameColumn { table: Seq<char>, name: Seq<char>, new_name: Seq<char> },
    CreateIndex { table: Seq<char>, index: IndexView },
    DropIndex { table: Seq<char>, name: Seq<char> },
}

impl View for MigrationStep {
    type V = StepView;

    open spec fn view(&self) -> StepView {
        match self {
            MigrationStep::CreateTable(table) => StepView::CreateTable(table@),
            MigrationStep::DropTable { name } => StepView::DropTable { name: name@ },
            MigrationStep::RenameTable { name, new_name } => StepView::RenameTable {
                name: name@,
                new_name: new_name@,
            },
            MigrationStep::AddColumn { table, column } => StepView::AddColumn {
                table: table@,
                column: column@,
            },
            MigrationStep::DropColumn { table, name } => StepView::DropColumn {
                table: table@,
                name: name@,
            },
            MigrationStep::AlterColumn { table, name, column } => StepView::AlterColumn {
                table: table@,
                name: name@,
                column: column@,
            },
            MigrationStep::RenameColumn { table, name, new_name } => StepView::RenameColumn {
                table: table@,
                name: name@,
                new_name: new_name@,
            },
            MigrationStep::CreateIndex { table, index } => StepView::CreateIndex {
                table: table@,
                index: index@,
            },
            MigrationStep::DropIndex { table, name } => StepView::DropIndex {
                table: table@,
                name: name@,
            },
        }
    }
}

impl DeepView for MigrationStep {
    type V = StepView;

    open spec fn deep_view(&self) -> StepView {
        self@
    }
}

impl Column {
    /// A copy of the column.
    pub fn copy(&self) -> (copy: Column)
        ensures
            copy@ == self@,
    {
        Column {
            name: self.name.clone(),
            tpe: self.tpe,
            is_required: self.is_required,
            foreign_key: match &self.foreign_key {
                Some(key) => Some(
                    ForeignKey {
                        name: match &key.name {
                            Some(name) => Some(name.clone()),
                            None => None,
                        },
                        table: key.table.clone(),
                        column: key.column.clone(),
                        on_delete: key.on_delete,
                    },
                ),
                None => None,
            },
        }
    }
}

impl Index {
    /// A copy of the index.
    pub fn copy(&self) -> (copy: Index)
        ensures
            copy@ == self@,
    {
        Index { name: self.name.clone(), columns: copy_names(&self.columns), tpe: self.tpe }
    }
}

/// `table` in which the first column called `name` is replaced by what
/// `change` makes of it, or is removed if `change` makes nothing of it. A
/// table without such a column stays as it is.
pub open spec fn with_column_changed(
    table: TableView,
    name: Seq<char>,
    change: spec_fn(ColumnView) -> Option<ColumnView>,
) -> TableView {
    match column_index(table.columns, name) {
        Some(i) => match change(table.columns[i]) {
            Some(column) => TableView { columns: table.columns.update(i, column), ..table },
            None => TableView { columns: table.columns.remove(i), ..table },
        },
        None => table,
    }
}

/// What a step makes of the table that it names.
pub open spec fn applied_to_table(table: TableView, step: StepView) -> TableView {
    match step {
        StepView::RenameTable { new_name, .. } => TableView { name: new_name, ..table },
        StepView::AddColumn { column, .. } => TableView {
            columns: table.columns.push(column),
            ..table
        },
        StepView::DropColumn { name, .. } => with_column_changed(
            table,
            name,
            |column: ColumnView| None::<ColumnView>,
        ),
        StepView::AlterColumn { name, column, .. } => with_column_changed(
            table,
            name,
            |old: ColumnView| Some(column),
        ),
        StepView::RenameColumn { name, new_name, .. } => with_column_changed(
            table,
            name,
            |old: ColumnView| Some(ColumnView { name: new_name, ..old }),
        ),
        StepView::CreateIndex { index, .. } => TableView {
            indexes: table.indexes.push(index),
            ..table
        },
        StepView::DropIndex { name, .. } => match index_index(table.indexes, name) {
            Some(i) => TableView { indexes: table.indexes.remove(i), ..table },
            None => table,
        },
        _ => table,
    }
}

/// The name of the table that a step changes, if it changes one that is
/// there and stays.
pub open spec fn table_of_step(step: StepView) -> Option<Seq<char>> {
    match step {
        StepView::CreateTable(_) => None,
        StepView::DropTable { .. } => None,
        StepView::RenameTable { name, .. } => Some(name),
        StepView::AddColumn { table, .. } => Some(table),
        StepView::DropColumn { table, .. } => Some(table),
        StepView::AlterColumn { table, .. } => Some(table),
        StepView::RenameColumn { table, .. } => Some(table),
        StepView::CreateIndex { table, .. } => Some(table),
        StepView::DropIndex { table, .. } => Some(table),
    }
}

/// The schema `schema` after `step`. A new table stands last. A step that
/// names a table changes the first table of that name, and a schema without
/// such a table stays as it is.
pub open spec fn applied(schema: Seq<TableView>, step: StepView) -> Seq<TableView> {
    match step {
        StepView::CreateTable(table) => schema.push(table),
        StepView::DropTable { name } => match table_index(schema, name) {
            Some(i) => schema.remove(i),
            None => schema,
        },
        _ => match table_index(schema, table_of_step(step)->0) {
            Some(i) => schema.update(i, applied_to_table(schema[i], step)),
            None => schema,
        },
    }
}

/// The schema `schema` after the first `n` of `steps`.
pub open spec fn applied_all(schema: Seq<TableView>, steps: Seq<StepView>, n: nat) -> Seq<
    TableView,
>
    decreases n,
{
    if n == 0 {
        schema
    } else {
        applied(applied_all(schema, steps, (n - 1) as nat), steps[n - 1])
    }
}

impl Table {
    /// A copy of the table.
    pub fn copy(&self) -> (copy: Table)
        ensures
            copy@ == self@,
    {
        let mut columns: Vec<Column> = Vec::new();
        let mut i: usize = 0;
        while i < self.columns.len()
            invariant
                i <= self.columns@.len(),
                columns@.len() == i,
                forall|j: int| 0 <= j < i ==> (#[trigger] columns@[j])@ == self.columns@[j]@,
            decreases self.columns@.len() - i,
        {
            columns.push(self.columns[i].copy());
            i += 1;
        }
        let mut indexes: Vec<Index> = Vec::new();
        let mut k: usize = 0;
        while k < self.indexes.len()
            invariant
                k <= self.indexes@.len(),
                indexes@.len() == k,
                forall|j: int| 0 <= j < k ==> (#[trigger] indexes@[j])@ == self.indexes@[j]@,
            decreases self.indexes@.len() - k,
        {
            indexes.push(self.indexes[k].copy());
            k += 1;
        }
        let copy = Table {
            name: self.name.clone(),
            columns,
            indexes,
            primary_key_columns: copy_names(&self.primary_key_columns),
        };
        assert(copy@.columns =~= self@.columns);
        assert(copy@.indexes =~= self@.indexes);
        copy
    }

    /// Does to the table what `step` does to the table that it names, see
    /// [`applied_to_table`].
    fn apply(&mut self, step: &MigrationStep)
        ensures
            final(self)@ == applied_to_table(old(self)@, step@),
    {
        match step {
            MigrationStep::RenameTable { new_name, .. } => {
                self.name = new_name.clone();
            },
            MigrationStep::AddColumn { column, .. } => {
                let ghost before = self.columns.deep_view();
                let added = column.copy();
                self.columns.push(added);
                assert(self.columns.deep_view() =~= before.push(column@));
            },
            MigrationStep::DropColumn { name, .. } => {
                if let Some(i) = self.column_position(name.as_str()) {
                    let ghost before = self.columns.deep_view();
                    self.columns.remove(i);
                    assert(self.columns.deep_view() =~= before.remove(i as int));
                }
            },
            MigrationStep::AlterColumn { name, column, .. } => {
                if let Some(i) = self.column_position(name.as_str()) {
                    let ghost before = self.columns.deep_view();
                    let altered = column.copy();
                    self.columns.set(i, altered);
                    assert(self.columns.deep_view() =~= before.update(i as int, column@));
                }
            },
            MigrationStep::RenameColumn { name, new_name, .. } => {
                if let Some(i) = self.column_position(name.as_str()) {
                    let ghost before = self.columns.deep_view();
                    let mut renamed = self.columns[i].copy();
                    renamed.name = new_name.clone();
                    self.columns.set(i, renamed);
                    assert(self.columns.deep_view() =~= before.update(
                        i as int,
                        ColumnView { name: new_name@, ..before[i as int] },
                    ));
                }
            },
            MigrationStep::CreateIndex { index, .. } => {
                let ghost before = self.indexes.deep_view();
                let added = index.copy();
                self.indexes.push(added);
                assert(self.indexes.deep_view() =~= before.push(index@));
            },
            MigrationStep::DropIndex { name, .. } => {
                if let Some(i) = self.index_position(name.as_str()) {
                    let ghost before = self.indexes.deep_view();
                    self.indexes.remove(i);
                    assert(self.indexes.deep_view() =~= before.remove(i as int));
                }
            },
            _ => {},
        }
    }
}

impl DatabaseSchema {
    /// Does to the schema what `step` says, see [`applied`].
    pub fn apply(&mut self, step: &MigrationStep)
        ensures
            final(self)@ == applied(old(self)@, step@),
    {
        let ghost before = self@;
        match step {
            MigrationStep::CreateTable(table) => {
                let created = table.copy();
                self.tables.push(created);
                assert(self@ =~= before.push(table@));
            },
            MigrationStep::DropTable { name } => {
                if let Some(i) = self.table_position(name.as_str()) {
                    self.tables.remove(i);
                    assert(self@ =~= before.remove(i as int));
                }
            },
            MigrationStep::RenameTable { name, .. } => {
                self.apply_to(name.as_str(), step);
            },
            MigrationStep::AddColumn { table, .. } => {
                self.apply_to(table.as_str(), step);
            },
            MigrationStep::DropColumn { table, .. } => {
                self.apply_to(table.as_str(), step);
            },
            MigrationStep::AlterColumn { table, .. } => {
                self.apply_to(table.as_str(), step);
            },
            MigrationStep::RenameColumn { table, .. } => {
                self.apply_to(table.as_str(), step);
            },
            MigrationStep::CreateIndex { table, .. } => {
                self.apply_to(table.as_str(), step);
            },
            MigrationStep::DropIndex { table, .. } => {
                self.apply_to(table.as_str(), step);
            },
        }
    }

    /// Does to the first table called `table` what `step` does to the
    /// table that it names.
    fn apply_to(&mut self, table: &str, step: &MigrationStep)
        ensures
            final(self)@ == match table_index(old(self)@, table@) {
                Some(i) => old(self)@.update(i, applied_to_table(old(self)@[i], step@)),
                None => old(self)@,
            },
    {
        let ghost before = self@;
        if let Some(i) = self.table_position(table) {
            self.tables[i].apply(step);
            assert(self@ =~= before.update(i as int, applied_to_table(before[i as int], step@)));
        }
    }

    /// Does to the schema what `steps` say, one after another, see
    /// [`applied_all`].
    pub fn apply_all(&mut self, steps: &Vec<MigrationStep>)
        ensures
            final(self)@ == applied_all(old(self)@, steps.deep_view(), steps@.len()),
    {
        let mut n: usize = 0;
        while n < steps.len()
            invariant
                n <= steps@.len(),
                self@ == applied_all(old(self)@, steps.deep_view(), n as nat),
            decreases steps@.len() - n,
        {
            self.apply(&steps[n]);
            n += 1;
        }
    }
}

} // verus!
