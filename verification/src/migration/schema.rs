//! The schema of a database: its tables with their columns, indexes and
//! foreign keys.

use crate::text::{owned, str_eq};
use vstd::prelude::*;

verus! {

/// The type of the values of a column.
#[derive(Clone, Copy, Debug, PartialEq, Eq, Structural)]
pub enum ColumnType {
    Int,
    Float,
    Boolean,
    String,
    DateTime,
}

/// What happens to a record when the record that it refers to is deleted.
#[derive(Clone, Copy, Debug, PartialEq, Eq, Structural)]
pub enum OnDelete {
    NoAction,
    SetNull,
    Cascade,
}

/// A reference from a column to a column of another table.
#[derive(Clone, Debug, PartialEq)]
pub struct ForeignKey {
    pub name: Option<String>,
    pub table: String,
    pub column: String,
    pub on_delete: OnDelete,
}

/// A column.
#[derive(Clone, Debug, PartialEq)]
pub struct Column {
    pub name: String,
    pub tpe: ColumnType,
    pub is_required: bool,
    pub foreign_key: Option<ForeignKey>,
}

/// The kind of an index.
#[derive(Clone, Copy, Debug, PartialEq, Eq, Structural)]
pub enum IndexType {
    Unique,
    Normal,
}

/// An index.
#[derive(Clone, Debug, PartialEq)]
pub struct Index {
    pub name: String,
    pub columns: Vec<String>,
    pub tpe: IndexType,
}

/// A table.
#[derive(Clone, Debug, PartialEq)]
pub struct Table {
    pub name: String,
    pub columns: Vec<Column>,
    pub indexes: Vec<Index>,
    pub primary_key_columns: Vec<String>,
}

/// The schema of a database.
#[derive(Clone, Debug, PartialEq)]
pub struct DatabaseSchema {
    pub tables: Vec<Table>,
}

/// A foreign key, as plain values.
pub struct ForeignKeyView {
    pub name: Option<Seq<char>>,
    pub table: Seq<char>,
    pub column: Seq<char>,
    pub on_delete: OnDelete,
}

/// A column, as plain values.
pub struct ColumnView {
    pub name: Seq<char>,
    pub tpe: ColumnType,
    pub is_required: bool,
    pub foreign_key: Option<ForeignKeyView>,
}

/// An index, as plain values.
pub struct IndexView {
    pub name: Seq<char>,
    pub columns: Seq<Seq<char>>,
    pub tpe: IndexType,
}

/// A table, as plain values.
pub struct TableView {
    pub name: Seq<char>,
    pub columns: Seq<ColumnView>,
    pub indexes: Seq<IndexView>,
    pub primary_key_columns: Seq<Seq<char>>,
}

impl View for ForeignKey {
    type V = ForeignKeyView;

    open spec fn view(&self) -> ForeignKeyView {
        ForeignKeyView {
            name: self.name.deep_view(),
            table: self.table@,
            column: self.column@,
            on_delete: self.on_delete,
        }
    }
}

impl DeepView for ForeignKey {
    type V = ForeignKeyView;

    open spec fn deep_view(&self) -> ForeignKeyView {
        self@
    }
}

impl View for Column {
    type V = ColumnView;

    open spec fn view(&self) -> ColumnView {
        ColumnView {
            name: self.name@,
            tpe: self.tpe,
            is_required: self.is_required,
            foreign_key: self.foreign_key.deep_view(),
        }
    }
}

impl DeepView for Column {
    type V = ColumnView;

    open spec fn deep_view(&self) -> ColumnView {
        self@
    }
}

impl View for Index {
    type V = IndexView;

    open spec fn view(&self) -> IndexView {
        IndexView { name: self.name@, columns: self.columns.deep_view(), tpe: self.tpe }
    }
}

impl DeepView for Index {
    type V = IndexView;

    open spec fn deep_view(&self) -> IndexView {
        self@
    }
}

impl View for Table {
    type V = TableView;

    open spec fn view(&self) -> TableView {
        TableView {
            name: self.name@,
            columns: self.columns.deep_view(),
            indexes: self.indexes.deep_view(),
            primary_key_columns: self.primary_key_columns.deep_view(),
        }
    }
}

impl DeepView for Table {
    type V = TableView;

    open spec fn deep_view(&self) -> TableView {
        self@
    }
}

impl View for DatabaseSchema {
    type V = Seq<TableView>;

    open spec fn view(&self) -> Seq<TableView> {
        self.tables.deep_view()
    }
}

/// The index of the first of `tables` that is called `name`.
pub open spec fn table_index(tables: Seq<TableView>, name: Seq<char>) -> Option<int> {
    crate::first::first_where(tables.len() as int, |i: int| tables[i].name == name)
}

/// The index of the first of `columns` that is called `name`.
pub open spec fn column_index(columns: Seq<ColumnView>, name: Seq<char>) -> Option<int> {
    crate::first::first_where(columns.len() as int, |i: int| columns[i].name == name)
}

/// The index of the first of `indexes` that is called `name`.
pub open spec fn index_index(indexes: Seq<IndexView>, name: Seq<char>) -> Option<int> {
    crate::first::first_where(indexes.len() as int, |i: int| indexes[i].name == name)
}

/// The position of the first of `columns` that is called `name`.
pub fn find_column(columns: &Vec<Column>, name: &str) -> (found: Option<usize>)
    ensures
        match found {
            Some(i) => column_index(columns.deep_view(), name@) == Some(i as int) && i
                < columns@.len(),
            None => column_index(columns.deep_view(), name@) is None,
        },
{
    let ghost views = columns.deep_view();
    let ghost named = |i: int| views[i].name == name@;
    let mut i: usize = 0;
    while i < columns.len()
        invariant
            i <= columns@.len(),
            views == columns.deep_view(),
            named == (|i: int| views[i].name == name@),
            forall|j: int| 0 <= j < i ==> !#[trigger] named(j),
        decreases columns@.len() - i,
    {
        if str_eq(columns[i].name.as_str(), name) {
            proof {
                assert(named(i as int));
                crate::first::lemma_first_where_is(views.len() as int, named, i as int);
            }
            return Some(i);
        }
        assert(!named(i as int));
        i += 1;
    }
    proof {
        crate::first::lemma_first_where(views.len() as int, named);
    }
    None
}

impl ForeignKey {
    /// A foreign key without a name of its own.
    pub fn new(table: String, column: String, on_delete: OnDelete) -> (key: ForeignKey)
        ensures
            key@ == (ForeignKeyView { name: None, table: table@, column: column@, on_delete }),
    {
        ForeignKey { name: None, table, column, on_delete }
    }
}

impl Table {
    /// The position of the first column called `name`.
    pub fn column_position(&self, name: &str) -> (found: Option<usize>)
        ensures
            match found {
                Some(i) => column_index(self@.columns, name@) == Some(i as int) && i
                    < self.columns@.len(),
                None => column_index(self@.columns, name@) is None,
            },
    {
        find_column(&self.columns, name)
    }

    /// The first column called `name`.
    pub fn column(&self, name: &str) -> (found: Option<&Column>)
        ensures
            match found {
                Some(column) => column_index(self@.columns, name@) matches Some(i)
                    && self.columns@[i] == *column,
                None => column_index(self@.columns, name@) is None,
            },
    {
        match self.column_position(name) {
            Some(i) => Some(&self.columns[i]),
            None => None,
        }
    }

    /// Whether the table has a column called `name`.
    pub open spec fn has_column(&self, name: Seq<char>) -> bool {
        column_index(self@.columns, name) is Some
    }

    /// The first column called `name`, of a table that has one.
    pub fn column_bang(&self, name: &str) -> (column: &Column)
        requires
            self.has_column(name@),
        ensures
            column_index(self@.columns, name@) matches Some(i) && self.columns@[i] == *column,
    {
        let i = self.column_position(name).unwrap();
        &self.columns[i]
    }

    /// The position of the first index called `name`.
    pub fn index_position(&self, name: &str) -> (found: Option<usize>)
        ensures
            match found {
                Some(i) => index_index(self@.indexes, name@) == Some(i as int) && i
                    < self.indexes@.len(),
                None => index_index(self@.indexes, name@) is None,
            },
    {
        let ghost indexes = self@.indexes;
        let ghost named = |i: int| indexes[i].name == name@;
        let mut i: usize = 0;
        while i < self.indexes.len()
            invariant
                i <= self.indexes@.len(),
                indexes == self@.indexes,
                named == (|i: int| indexes[i].name == name@),
                forall|j: int| 0 <= j < i ==> !#[trigger] named(j),
            decreases self.indexes@.len() - i,
        {
            if str_eq(self.indexes[i].name.as_str(), name) {
                proof {
                    assert(named(i as int));
                    crate::first::lemma_first_where_is(indexes.len() as int, named, i as int);
                }
                return Some(i);
            }
            assert(!named(i as int));
            i += 1;
        }
        proof {
            crate::first::lemma_first_where(indexes.len() as int, named);
        }
        None
    }
}

impl DatabaseSchema {
    /// The schema of a database without tables.
    pub fn empty() -> (schema: DatabaseSchema)
        ensures
            schema@ == Seq::<TableView>::empty(),
    {
        let schema = DatabaseSchema { tables: Vec::new() };
        assert(schema@ =~= Seq::<TableView>::empty());
        schema
    }

    /// The position of the first table called `name`.
    pub fn table_position(&self, name: &str) -> (found: Option<usize>)
        ensures
            match found {
                Some(i) => table_index(self@, name@) == Some(i as int) && i < self.tables@.len(),
                None => table_index(self@, name@) is None,
            },
    {
        let ghost tables = self@;
        let ghost named = |i: int| tables[i].name == name@;
        let mut i: usize = 0;
        while i < self.tables.len()
            invariant
                i <= self.tables@.len(),
                tables == self@,
                named == (|i: int| tables[i].name == name@),
                forall|j: int| 0 <= j < i ==> !#[trigger] named(j),
            decreases self.tables@.len() - i,
        {
            if str_eq(self.tables[i].name.as_str(), name) {
                proof {
                    assert(named(i as int));
                    crate::first::lemma_first_where_is(tables.len() as int, named, i as int);
                }
                return Some(i);
            }
            assert(!named(i as int));
            i += 1;
        }
        proof {
            crate::first::lemma_first_where(tables.len() as int, named);
        }
        None
    }

    /// The first table called `name`.
    pub fn table(&self, name: &str) -> (found: Option<&Table>)
        ensures
            match found {
                Some(table) => table_index(self@, name@) matches Some(i) && self.tables@[i]
                    == *table,
                None => table_index(self@, name@) is None,
            },
    {
        match self.table_position(name) {
            Some(i) => Some(&self.tables[i]),
            None => None,
        }
    }

    /// Whether the schema has a table called `name`.
    pub open spec fn has_table(&self, name: Seq<char>) -> bool {
        table_index(self@, name) is Some
    }

    /// The first table called `name`, of a schema that has one.
    pub fn table_bang(&self, name: &str) -> (table: &Table)
        requires
            self.has_table(name@),
        ensures
            table_index(self@, name@) matches Some(i) && self.tables@[i] == *table,
    {
        let i = self.table_position(name).unwrap();
        &self.tables[i]
    }
}

} // verus!
