//! What the families of databases cannot do.
//!
//! MySQL keeps a column that refers to another table from being dropped and
//! from losing its reference, and keeps a column of a primary key that
//! refers to another table from being altered.

use crate::migration::render::SqlFamily;
use crate::migration::schema::{
    column_index, table_index, DatabaseSchema, Table, TableView,
};
use crate::migration::steps::{applied, MigrationStep, StepView};
use crate::text::str_eq;
use vstd::prelude::*;

verus! {

/// Whether the column called `column` of the first table called `table`
/// refers to another table.
pub open spec fn refers_elsewhere(schema: Seq<TableView>, table: Seq<char>, column: Seq<char>) -> bool {
    table_index(schema, table) matches Some(t) && column_index(schema[t].columns, column) matches Some(
        c,
    ) && schema[t].columns[c].foreign_key is Some
}

/// Whether the column called `column` is part of the primary key of the
/// first table called `table`.
pub open spec fn is_in_primary_key(schema: Seq<TableView>, table: Seq<char>, column: Seq<char>) -> bool {
    table_index(schema, table) matches Some(t) && schema[t].primary_key_columns.contains(column)
}

/// Whether the family can carry out `step` on a database with the schema
/// `schema`.
pub open spec fn is_supported(family: SqlFamily, schema: Seq<TableView>, step: StepView) -> bool {
    family != SqlFamily::Mysql || match step {
        StepView::DropColumn { table, name } => !refers_elsewhere(schema, table, name),
        StepView::AlterColumn { table, name, column } => !refers_elsewhere(schema, table, name)
            || (column.foreign_key is Some && !is_in_primary_key(schema, table, name)),
        _ => true,
    }
}

/// The first of the first `n` of `steps` that the family cannot carry out,
/// each step being carried out on the schema that the steps before it make
/// of `schema`; with it the schema after the first `n` steps, or after the
/// steps before the one that cannot be carried out.
pub open spec fn first_unsupported(
    family: SqlFamily,
    schema: Seq<TableView>,
    steps: Seq<StepView>,
    n: nat,
) -> (Option<int>, Seq<TableView>)
    decreases n,
{
    if n == 0 {
        (None, schema)
    } else {
        let (found, before) = first_unsupported(family, schema, steps, (n - 1) as nat);
        if found is Some {
            (found, before)
        } else if is_supported(family, before, steps[n - 1]) {
            (None, applied(before, steps[n - 1]))
        } else {
            (Some(n - 1), before)
        }
    }
}

/// Whether the column called `column` of the first table called `table`
/// refers to another table, and whether it is part of the primary key.
fn look_up(schema: &DatabaseSchema, table: &str, column: &str) -> (found: (bool, bool))
    ensures
        found.0 == refers_elsewhere(schema@, table@, column@),
        found.1 == is_in_primary_key(schema@, table@, column@),
{
    match schema.table_position(table) {
        Some(t) => {
            let found = &schema.tables[t];
            assert(schema@[t as int] == found@);
            let refers = match found.column_position(column) {
                Some(c) => {
                    assert(found@.columns[c as int] == found.columns@[c as int]@);
                    found.columns[c].foreign_key.is_some()
                },
                None => false,
            };
            let key = &found.primary_key_columns;
            let ghost names = key.deep_view();
            let mut in_key = false;
            let mut k: usize = 0;
            while k < key.len()
                invariant
                    k <= key@.len(),
                    names == key.deep_view(),
                    in_key == exists|j: int| 0 <= j < k && names[j] == column@,
                decreases key@.len() - k,
            {
                assert(names[k as int] == key@[k as int]@);
                if str_eq(key[k].as_str(), column) {
                    in_key = true;
                }
                k += 1;
            }
            (refers, in_key)
        },
        None => (false, false),
    }
}

/// Whether the family can carry out `step` on a database with the schema
/// `schema`, see [`is_supported`].
pub fn supports(family: SqlFamily, schema: &DatabaseSchema, step: &MigrationStep) -> (supported:
    bool)
    ensures
        supported == is_supported(family, schema@, step@),
{
    if family != SqlFamily::Mysql {
        return true;
    }
    match step {
        MigrationStep::DropColumn { table, name } => {
            let (refers, _) = look_up(schema, table.as_str(), name.as_str());
            !refers
        },
        MigrationStep::AlterColumn { table, name, column } => {
            let (refers, in_key) = look_up(schema, table.as_str(), name.as_str());
            !refers || (column.foreign_key.is_some() && !in_key)
        },
        _ => true,
    }
}

/// Carries out `steps` on `schema` one after another, as far as the family
/// can, and gives the first step that it cannot carry out, see
/// [`first_unsupported`].
pub fn apply_supported(family: SqlFamily, schema: &mut DatabaseSchema, steps: &Vec<MigrationStep>) -> (found:
    Option<usize>)
    ensures
        match found {
            Some(i) => first_unsupported(family, old(schema)@, steps.deep_view(), steps@.len()).0
                == Some(i as int) && i < steps@.len(),
            None => first_unsupported(family, old(schema)@, steps.deep_view(), steps@.len()).0
                is None,
        },
        final(schema)@ == first_unsupported(
            family,
            old(schema)@,
            steps.deep_view(),
            steps@.len(),
        ).1,
{
    let ghost views = steps.deep_view();
    let mut n: usize = 0;
    while n < steps.len()
        invariant
            n <= steps@.len(),
            views == steps.deep_view(),
            first_unsupported(family, old(schema)@, views, n as nat) == (None::<int>, schema@),
        decreases steps@.len() - n,
    {
        assert(views[n as int] == steps@[n as int]@);
        if !supports(family, schema, &steps[n]) {
            proof {
                lemma_found_stays(family, old(schema)@, views, (n + 1) as nat, steps@.len() as nat);
            }
            return Some(n);
        }
        schema.apply(&steps[n]);
        n += 1;
    }
    None
}

/// A step that cannot be carried out stays the first such step whatever
/// steps follow.
proof fn lemma_found_stays(
    family: SqlFamily,
    schema: Seq<TableView>,
    steps: Seq<StepView>,
    n: nat,
    m: nat,
)
    requires
        n <= m,
        first_unsupported(family, schema, steps, n).0 is Some,
    ensures
        first_unsupported(family, schema, steps, m) == first_unsupported(family, schema, steps, n),
    decreases m - n,
{
    if n < m {
        lemma_found_stays(family, schema, steps, n, (m - 1) as nat);
    }
}

} // verus!
