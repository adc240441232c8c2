//! The statements that carry out the steps of a migration, for each family
//! of databases.

use crate::migration::schema::{
    Column, ColumnType, ColumnView, ForeignKeyView, Index, IndexType, IndexView, OnDelete, Table,
    TableView,
};
use crate::migration::steps::{MigrationStep, StepView};
use crate::text::owned;
use vstd::prelude::*;
use vstd::string::*;

verus! {

/// A family of databases.
#[derive(Clone, Copy, Debug, PartialEq, Eq, Structural)]
pub enum SqlFamily {
    Postgres,
    Mysql,
    Sqlite,
}

/// The character that names are quoted with.
pub open spec fn quote_of(family: SqlFamily) -> char {
    match family {
        SqlFamily::Mysql => '`',
        _ => '"',
    }
}

/// `name` with every `quote` in it written twice.
pub open spec fn escaped(name: Seq<char>, quote: char) -> Seq<char>
    decreases name.len(),
{
    if name.len() == 0 {
        Seq::empty()
    } else if name.last() == quote {
        escaped(name.drop_last(), quote) + seq![quote, quote]
    } else {
        escaped(name.drop_last(), quote) + seq![name.last()]
    }
}

/// `name` between quotes, as the family writes the names of tables, columns
/// and indexes.
pub open spec fn quoted(family: SqlFamily, name: Seq<char>) -> Seq<char> {
    seq![quote_of(family)] + escaped(name, quote_of(family)) + seq![quote_of(family)]
}

/// What the family calls the type of a column.
pub open spec fn name_of_type(family: SqlFamily, tpe: ColumnType) -> Seq<char> {
    match tpe {
        ColumnType::Int => match family {
            SqlFamily::Mysql => "INT"@,
            _ => "INTEGER"@,
        },
        ColumnType::Float => match family {
            SqlFamily::Postgres => "DOUBLE PRECISION"@,
            SqlFamily::Mysql => "DOUBLE"@,
            SqlFamily::Sqlite => "REAL"@,
        },
        ColumnType::Boolean => match family {
            SqlFamily::Postgres => "BOOLEAN"@,
            SqlFamily::Mysql => "TINYINT(1)"@,
            SqlFamily::Sqlite => "INTEGER"@,
        },
        ColumnType::String => match family {
            SqlFamily::Mysql => "VARCHAR(191)"@,
            _ => "TEXT"@,
        },
        ColumnType::DateTime => match family {
            SqlFamily::Postgres => "TIMESTAMP"@,
            _ => "DATETIME"@,
        },
    }
}

/// What a foreign key does on deletion, as it is written.
pub open spec fn on_delete_text(policy: OnDelete) -> Seq<char> {
    match policy {
        OnDelete::NoAction => "NO ACTION"@,
        OnDelete::SetNull => "SET NULL"@,
        OnDelete::Cascade => "CASCADE"@,
    }
}

/// The reference of a foreign key, as it is written after a column.
pub open spec fn reference_text(family: SqlFamily, key: ForeignKeyView) -> Seq<char> {
    " REFERENCES "@ + quoted(family, key.table) + "("@ + quoted(family, key.column)
        + ") ON DELETE "@ + on_delete_text(key.on_delete)
}

/// The definition of a column: its name, its type, `NOT NULL` if it is
/// required, and its foreign key if it has one.
pub open spec fn column_definition(family: SqlFamily, column: ColumnView) -> Seq<char> {
    quoted(family, column.name) + " "@ + name_of_type(family, column.tpe) + (if column.is_required {
        " NOT NULL"@
    } else {
        Seq::empty()
    }) + (match column.foreign_key {
        Some(key) => reference_text(family, key),
        None => Seq::empty(),
    })
}

/// The first `n` of `parts`, with `, ` between them.
pub open spec fn listed(parts: Seq<Seq<char>>, n: nat) -> Seq<char>
    decreases n,
{
    if n == 0 {
        Seq::empty()
    } else if n == 1 {
        parts[0]
    } else {
        listed(parts, (n - 1) as nat) + ", "@ + parts[n - 1]
    }
}

/// The definitions of `columns`.
pub open spec fn column_definitions(family: SqlFamily, columns: Seq<ColumnView>) -> Seq<Seq<char>> {
    Seq::new(columns.len(), |i: int| column_definition(family, columns[i]))
}

/// `names`, each between quotes.
pub open spec fn quoted_names(family: SqlFamily, names: Seq<Seq<char>>) -> Seq<Seq<char>> {
    Seq::new(names.len(), |i: int| quoted(family, names[i]))
}

/// The statement that makes `table`: its columns, and its primary key if it
/// has one.
pub open spec fn create_table_text(family: SqlFamily, table: TableView) -> Seq<char> {
    let definitions = column_definitions(family, table.columns);
    let key = quoted_names(family, table.primary_key_columns);
    "CREATE TABLE "@ + quoted(family, table.name) + " ("@ + listed(definitions, definitions.len())
        + (if key.len() > 0 {
        ", PRIMARY KEY ("@ + listed(key, key.len()) + ")"@
    } else {
        Seq::empty()
    }) + ")"@
}

/// The statement that makes `index` on the table called `table`.
pub open spec fn create_index_text(family: SqlFamily, table: Seq<char>, index: IndexView) -> Seq<
    char,
> {
    let columns = quoted_names(family, index.columns);
    (if index.tpe == IndexType::Unique {
        "CREATE UNIQUE INDEX "@
    } else {
        "CREATE INDEX "@
    }) + quoted(family, index.name) + " ON "@ + quoted(family, table) + " ("@ + listed(
        columns,
        columns.len(),
    ) + ")"@
}

/// The statements that make the indexes `indexes` of the table called
/// `table`.
pub open spec fn create_index_texts(family: SqlFamily, table: Seq<char>, indexes: Seq<IndexView>) -> Seq<
    Seq<char>,
> {
    Seq::new(indexes.len(), |i: int| create_index_text(family, table, indexes[i]))
}

/// The start of a statement that alters the table called `table`.
pub open spec fn alter_table_text(family: SqlFamily, table: Seq<char>) -> Seq<char> {
    "ALTER TABLE "@ + quoted(family, table)
}

/// The statement that adds `column` to the table called `table`.
pub open spec fn add_column_text(family: SqlFamily, table: Seq<char>, column: ColumnView) -> Seq<
    char,
> {
    alter_table_text(family, table) + " ADD COLUMN "@ + column_definition(family, column)
}

/// The statement that drops the column called `name` of the table called
/// `table`.
pub open spec fn drop_column_text(family: SqlFamily, table: Seq<char>, name: Seq<char>) -> Seq<
    char,
> {
    alter_table_text(family, table) + " DROP COLUMN "@ + quoted(family, name)
}

/// The statements that carry out `step`. A new table is made with its
/// indexes. A column is altered by dropping it and adding it again.
pub open spec fn statements_of(family: SqlFamily, step: StepView) -> Seq<Seq<char>> {
    match step {
        StepView::CreateTable(table) => seq![create_table_text(family, table)]
            + create_index_texts(family, table.name, table.indexes),
        StepView::DropTable { name } => seq!["DROP TABLE "@ + quoted(family, name)],
        StepView::RenameTable { name, new_name } => seq![
            alter_table_text(family, name) + " RENAME TO "@ + quoted(family, new_name),
        ],
        StepView::AddColumn { table, column } => seq![add_column_text(family, table, column)],
        StepView::DropColumn { table, name } => seq![drop_column_text(family, table, name)],
        StepView::AlterColumn { table, name, column } => seq![
            drop_column_text(family, table, name),
            add_column_text(family, table, column),
        ],
        StepView::RenameColumn { table, name, new_name } => seq![
            alter_table_text(family, table) + " RENAME COLUMN "@ + quoted(family, name) + " TO "@
                + quoted(family, new_name),
        ],
        StepView::CreateIndex { table, index } => seq![create_index_text(family, table, index)],
        StepView::DropIndex { table, name } => seq![
            if family == SqlFamily::Mysql {
                "DROP INDEX "@ + quoted(family, name) + " ON "@ + quoted(family, table)
            } else {
                "DROP INDEX "@ + quoted(family, name)
            },
        ],
    }
}

/// The statements that carry out the first `n` of `steps`, in their order.
pub open spec fn rendered(family: SqlFamily, steps: Seq<StepView>, n: nat) -> Seq<Seq<char>>
    decreases n,
{
    if n == 0 {
        Seq::empty()
    } else {
        rendered(family, steps, (n - 1) as nat) + statements_of(family, steps[n - 1])
    }
}

/// Inference and rendering are deterministic: whenever the steps of the
/// migration from an empty database to a datamodel are inferred and
/// rendered, the same statements come out.
pub proof fn lemma_migration_is_deterministic(
    datamodel: &crate::dml::Datamodel,
    family: SqlFamily,
    first_steps: Vec<MigrationStep>,
    first: Vec<String>,
    second_steps: Vec<MigrationStep>,
    second: Vec<String>,
)
    requires
        first_steps.deep_view() == crate::migration::infer::inferred(None, datamodel),
        first.deep_view() == rendered(family, first_steps.deep_view(), first_steps@.len()),
        second_steps.deep_view() == crate::migration::infer::inferred(None, datamodel),
        second.deep_view() == rendered(family, second_steps.deep_view(), second_steps@.len()),
    ensures
        first.deep_view() == second.deep_view(),
{
    assert(first_steps@.len() == first_steps.deep_view().len());
    assert(second_steps@.len() == second_steps.deep_view().len());
}

/// `name` between quotes, see [`quoted`].
pub fn quote(family: SqlFamily, name: &str) -> (text: String)
    ensures
        text@ == quoted(family, name@),
{
    let (mark, single, double) = match family {
        SqlFamily::Mysql => {
            proof {
                reveal_strlit("`");
                reveal_strlit("``");
            }
            ('`', "`", "``")
        },
        _ => {
            proof {
                reveal_strlit("\"");
                reveal_strlit("\"\"");
            }
            ('"', "\"", "\"\"")
        },
    };
    assert(single@ =~= seq![mark]);
    assert(double@ =~= seq![mark, mark]);
    let mut text = owned(single);
    let len = name.unicode_len();
    let mut i: usize = 0;
    assert(name@.subrange(0, 0) =~= Seq::<char>::empty());
    while i < len
        invariant
            i <= len,
            len == name@.len(),
            mark == quote_of(family),
            single@ == seq![mark],
            double@ == seq![mark, mark],
            text@ == seq![mark] + escaped(name@.subrange(0, i as int), mark),
        decreases len - i,
    {
        proof {
            let longer = name@.subrange(0, i + 1);
            assert(longer.drop_last() =~= name@.subrange(0, i as int));
            assert(longer.last() == name@[i as int]);
        }
        if name.get_char(i) == mark {
            text.append(double);
            assert(text@ =~= seq![mark] + escaped(name@.subrange(0, i + 1), mark));
        } else {
            let one = name.substring_char(i, i + 1);
            assert(one@ =~= seq![name@[i as int]]);
            text.append(one);
            assert(text@ =~= seq![mark] + escaped(name@.subrange(0, i + 1), mark));
        }
        i += 1;
    }
    assert(name@.subrange(0, i as int) =~= name@);
    text.append(single);
    text
}

/// What the family calls the type of a column, see [`name_of_type`].
pub fn type_text(family: SqlFamily, tpe: ColumnType) -> (text: &'static str)
    ensures
        text@ == name_of_type(family, tpe),
{
    match tpe {
        ColumnType::Int => match family {
            SqlFamily::Mysql => "INT",
            _ => "INTEGER",
        },
        ColumnType::Float => match family {
            SqlFamily::Postgres => "DOUBLE PRECISION",
            SqlFamily::Mysql => "DOUBLE",
            SqlFamily::Sqlite => "REAL",
        },
        ColumnType::Boolean => match family {
            SqlFamily::Postgres => "BOOLEAN",
            SqlFamily::Mysql => "TINYINT(1)",
            SqlFamily::Sqlite => "INTEGER",
        },
        ColumnType::String => match family {
            SqlFamily::Mysql => "VARCHAR(191)",
            _ => "TEXT",
        },
        ColumnType::DateTime => match family {
            SqlFamily::Postgres => "TIMESTAMP",
            _ => "DATETIME",
        },
    }
}

/// The definition of a column, see [`column_definition`].
pub fn define_column(family: SqlFamily, column: &Column) -> (text: String)
    ensures
        text@ == column_definition(family, column@),
{
    let mut text = quote(family, column.name.as_str());
    text.append(" ");
    text.append(type_text(family, column.tpe));
    if column.is_required {
        text.append(" NOT NULL");
    } else {
        assert(text@ =~= text@ + Seq::<char>::empty());
    }
    let ghost before = text@;
    match &column.foreign_key {
        Some(key) => {
            text.append(" REFERENCES ");
            text.append(quote(family, key.table.as_str()).as_str());
            text.append("(");
            text.append(quote(family, key.column.as_str()).as_str());
            text.append(") ON DELETE ");
            text.append(
                match key.on_delete {
                    OnDelete::NoAction => "NO ACTION",
                    OnDelete::SetNull => "SET NULL",
                    OnDelete::Cascade => "CASCADE",
                },
            );
            assert(text@ =~= before + reference_text(family, key@));
        },
        None => {
            assert(text@ =~= before + Seq::<char>::empty());
        },
    }
    text
}

/// Adds to `text` the `parts`, with `, ` between them, see [`listed`].
fn append_listed(text: &mut String, parts: &Vec<String>)
    ensures
        final(text)@ == old(text)@ + listed(parts.deep_view(), parts@.len()),
{
    let ghost start = text@;
    let ghost views = parts.deep_view();
    let mut i: usize = 0;
    assert(text@ =~= start + listed(views, 0));
    while i < parts.len()
        invariant
            i <= parts@.len(),
            views == parts.deep_view(),
            text@ == start + listed(views, i as nat),
        decreases parts@.len() - i,
    {
        if i > 0 {
            text.append(", ");
        }
        text.append(parts[i].as_str());
        assert(views[i as int] == parts@[i as int]@);
        assert(text@ =~= start + listed(views, (i + 1) as nat));
        i += 1;
    }
}

/// `names`, each between quotes, see [`quoted_names`].
fn quote_all(family: SqlFamily, names: &Vec<String>) -> (texts: Vec<String>)
    ensures
        texts.deep_view() == quoted_names(family, names.deep_view()),
{
    let mut texts: Vec<String> = Vec::new();
    let mut i: usize = 0;
    while i < names.len()
        invariant
            i <= names@.len(),
            texts@.len() == i,
            forall|j: int| 0 <= j < i ==> (#[trigger] texts@[j])@ == quoted(family, names@[j]@),
        decreases names@.len() - i,
    {
        texts.push(quote(family, names[i].as_str()));
        i += 1;
    }
    assert(texts.deep_view() =~= quoted_names(family, names.deep_view()));
    texts
}

/// The statement that makes `table`, see [`create_table_text`].
pub fn create_table(family: SqlFamily, table: &Table) -> (text: String)
    ensures
        text@ == create_table_text(family, table@),
{
    let mut definitions: Vec<String> = Vec::new();
    let mut i: usize = 0;
    while i < table.columns.len()
        invariant
            i <= table.columns@.len(),
            definitions@.len() == i,
            forall|j: int|
                0 <= j < i ==> (#[trigger] definitions@[j])@ == column_definition(
                    family,
                    table.columns@[j]@,
                ),
        decreases table.columns@.len() - i,
    {
        definitions.push(define_column(family, &table.columns[i]));
        i += 1;
    }
    assert(definitions.deep_view() =~= column_definitions(family, table@.columns));
    let key = quote_all(family, &table.primary_key_columns);
    let mut text = owned("CREATE TABLE ");
    text.append(quote(family, table.name.as_str()).as_str());
    text.append(" (");
    append_listed(&mut text, &definitions);
    let ghost before = text@;
    if key.len() > 0 {
        text.append(", PRIMARY KEY (");
        append_listed(&mut text, &key);
        text.append(")");
        assert(text@ =~= before + (", PRIMARY KEY ("@ + listed(
            key.deep_view(),
            key@.len(),
        ) + ")"@));
    } else {
        assert(text@ =~= before + Seq::<char>::empty());
    }
    text.append(")");
    text
}

/// The statement that makes `index` on the table called `table`, see
/// [`create_index_text`].
pub fn create_index(family: SqlFamily, table: &str, index: &Index) -> (text: String)
    ensures
        text@ == create_index_text(family, table@, index@),
{
    let columns = quote_all(family, &index.columns);
    let mut text = if index.tpe == IndexType::Unique {
        owned("CREATE UNIQUE INDEX ")
    } else {
        owned("CREATE INDEX ")
    };
    text.append(quote(family, index.name.as_str()).as_str());
    text.append(" ON ");
    text.append(quote(family, table).as_str());
    text.append(" (");
    append_listed(&mut text, &columns);
    text.append(")");
    text
}

/// The start of a statement that alters the table called `table`.
fn alter_table(family: SqlFamily, table: &str) -> (text: String)
    ensures
        text@ == alter_table_text(family, table@),
{
    let mut text = owned("ALTER TABLE ");
    text.append(quote(family, table).as_str());
    text
}

/// The statement that adds `column` to the table called `table`.
fn add_column(family: SqlFamily, table: &str, column: &Column) -> (text: String)
    ensures
        text@ == add_column_text(family, table@, column@),
{
    let mut text = alter_table(family, table);
    text.append(" ADD COLUMN ");
    text.append(define_column(family, column).as_str());
    text
}

/// The statement that drops the column called `name` of the table called
/// `table`.
fn drop_column(family: SqlFamily, table: &str, name: &str) -> (text: String)
    ensures
        text@ == drop_column_text(family, table@, name@),
{
    let mut text = alter_table(family, table);
    text.append(" DROP COLUMN ");
    text.append(quote(family, name).as_str());
    text
}

/// Adds to `statements` the statements that carry out `step`, see
/// [`statements_of`].
pub fn render_step(family: SqlFamily, step: &MigrationStep, statements: &mut Vec<String>)
    ensures
        final(statements).deep_view() == old(statements).deep_view() + statements_of(
            family,
            step@,
        ),
{
    let ghost start = statements.deep_view();
    match step {
        MigrationStep::CreateTable(table) => {
            let text = create_table(family, table);
            statements.push(text);
            let ghost made = statements.deep_view();
            assert(made =~= start + seq![create_table_text(family, table@)]);
            let ghost texts = create_index_texts(family, table@.name, table@.indexes);
            let mut i: usize = 0;
            while i < table.indexes.len()
                invariant
                    i <= table.indexes@.len(),
                    texts == create_index_texts(family, table@.name, table@.indexes),
                    statements.deep_view() == made + texts.subrange(0, i as int),
                decreases table.indexes@.len() - i,
            {
                let ghost so_far = statements.deep_view();
                let text = create_index(family, table.name.as_str(), &table.indexes[i]);
                assert(table@.indexes[i as int] == table.indexes@[i as int]@);
                assert(text@ == texts[i as int]);
                statements.push(text);
                assert(statements.deep_view() =~= so_far.push(texts[i as int]));
                assert(texts.subrange(0, i + 1) =~= texts.subrange(0, i as int).push(
                    texts[i as int],
                ));
                assert(statements.deep_view() =~= made + texts.subrange(0, i + 1));
                i += 1;
            }
            assert(texts.subrange(0, i as int) =~= texts);
            assert(statements.deep_view() =~= start + statements_of(family, step@));
        },
        MigrationStep::DropTable { name } => {
            let mut text = owned("DROP TABLE ");
            text.append(quote(family, name.as_str()).as_str());
            statements.push(text);
            assert(statements.deep_view() =~= start + statements_of(family, step@));
        },
        MigrationStep::RenameTable { name, new_name } => {
            let mut text = alter_table(family, name.as_str());
            text.append(" RENAME TO ");
            text.append(quote(family, new_name.as_str()).as_str());
            statements.push(text);
            assert(statements.deep_view() =~= start + statements_of(family, step@));
        },
        MigrationStep::AddColumn { table, column } => {
            statements.push(add_column(family, table.as_str(), column));
            assert(statements.deep_view() =~= start + statements_of(family, step@));
        },
        MigrationStep::DropColumn { table, name } => {
            statements.push(drop_column(family, table.as_str(), name.as_str()));
            assert(statements.deep_view() =~= start + statements_of(family, step@));
        },
        MigrationStep::AlterColumn { table, name, column } => {
            statements.push(drop_column(family, table.as_str(), name.as_str()));
            statements.push(add_column(family, table.as_str(), column));
            assert(statements.deep_view() =~= start + statements_of(family, step@));
        },
        MigrationStep::RenameColumn { table, name, new_name } => {
            let mut text = alter_table(family, table.as_str());
            text.append(" RENAME COLUMN ");
            text.append(quote(family, name.as_str()).as_str());
            text.append(" TO ");
            text.append(quote(family, new_name.as_str()).as_str());
            statements.push(text);
            assert(statements.deep_view() =~= start + statements_of(family, step@));
        },
        MigrationStep::CreateIndex { table, index } => {
            statements.push(create_index(family, table.as_str(), index));
            assert(statements.deep_view() =~= start + statements_of(family, step@));
        },
        MigrationStep::DropIndex { table, name } => {
            let mut text = owned("DROP INDEX ");
            text.append(quote(family, name.as_str()).as_str());
            if family == SqlFamily::Mysql {
                text.append(" ON ");
                text.append(quote(family, table.as_str()).as_str());
            }
            statements.push(text);
            assert(statements.deep_view() =~= start + statements_of(family, step@));
        },
    }
}

/// The statements that carry out `steps`, in their order, see
/// [`rendered`].
pub fn render(family: SqlFamily, steps: &Vec<MigrationStep>) -> (statements: Vec<String>)
    ensures
        statements.deep_view() == rendered(family, steps.deep_view(), steps@.len()),
{
    let mut statements: Vec<String> = Vec::new();
    let mut n: usize = 0;
    assert(statements.deep_view() =~= rendered(family, steps.deep_view(), 0));
    while n < steps.len()
        invariant
            n <= steps@.len(),
            statements.deep_view() == rendered(family, steps.deep_view(), n as nat),
        decreases steps@.len() - n,
    {
        render_step(family, &steps[n], &mut statements);
        n += 1;
    }
    statements
}

} // verus!
