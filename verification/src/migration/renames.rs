//! What is only called otherwise from one datamodel to the next.
//!
//! A field of the same name in a model of the same name whose column is
//! called otherwise keeps its column under the new name. A relation between
//! two lists that is called otherwise keeps its table under the new name.

use crate::convert::{column_of, find_companion, stands_on_side_a};
use crate::dml;
use crate::dml::{FieldArity, FieldType};
use crate::gather::gather;
use crate::migration::calculate::{column_name, link_tables_from, table_name, table_name_of};
use crate::text::{owned, str_eq};
use vstd::prelude::*;
use vstd::string::*;

verus! {

/// A column that is called `to` from now on, and was called `from`.
#[derive(Clone, Debug, PartialEq)]
pub struct ColumnRename {
    pub table: String,
    pub from: String,
    pub to: String,
}

/// A table that is called `to` from now on, and was called `from`.
#[derive(Clone, Debug, PartialEq)]
pub struct TableRename {
    pub from: String,
    pub to: String,
}

/// A column that is called otherwise, as plain values.
pub struct ColumnRenameView {
    pub table: Seq<char>,
    pub from: Seq<char>,
    pub to: Seq<char>,
}

/// A table that is called otherwise, as plain values.
pub struct TableRenameView {
    pub from: Seq<char>,
    pub to: Seq<char>,
}

impl View for ColumnRename {
    type V = ColumnRenameView;

    open spec fn view(&self) -> ColumnRenameView {
        ColumnRenameView { table: self.table@, from: self.from@, to: self.to@ }
    }
}

impl DeepView for ColumnRename {
    type V = ColumnRenameView;

    open spec fn deep_view(&self) -> ColumnRenameView {
        self@
    }
}

impl View for TableRename {
    type V = TableRenameView;

    open spec fn view(&self) -> TableRenameView {
        TableRenameView { from: self.from@, to: self.to@ }
    }
}

impl DeepView for TableRename {
    type V = TableRenameView;

    open spec fn deep_view(&self) -> TableRenameView {
        self@
    }
}

/// The field of `previous` that `field`, a field of `model`, was: the
/// first field of its name in the first model of the name of `model`.
pub open spec fn field_before(previous: &dml::Datamodel, model: &dml::Model, field: &dml::Field) -> Option<
    (dml::Model, dml::Field),
> {
    match previous.spec_find_model(model.name@) {
        Some(before) => match before.spec_find_field(field.name@) {
            Some(old) => Some((before, old)),
            None => None,
        },
        None => None,
    }
}

/// The new name of the column of `field`, a field of `model`: one if the
/// field was there before in a table of the same name, with a column that
/// was called otherwise.
pub open spec fn column_rename_from(previous: &dml::Datamodel, model: &dml::Model) -> spec_fn(
    int,
) -> Seq<ColumnRenameView> {
    |j: int|
        match field_before(previous, model, &model.fields@[j]) {
            Some((before, old)) => if table_name_of(&before) == table_name_of(model) && column_of(
                &old,
            ) != column_of(&model.fields@[j]) {
                seq![
                    ColumnRenameView {
                        table: table_name_of(model),
                        from: column_of(&old),
                        to: column_of(&model.fields@[j]),
                    },
                ]
            } else {
                Seq::empty()
            },
            None => Seq::empty(),
        }
}

/// The new names of the columns of the fields of model `i` of `next`.
pub open spec fn column_renames_in(previous: &dml::Datamodel, next: &dml::Datamodel) -> spec_fn(
    int,
) -> Seq<ColumnRenameView> {
    |i: int|
        gather(
            next.models@[i].fields@.len(),
            column_rename_from(previous, &next.models@[i]),
        )
}

/// The new names of columns from the datamodel `previous` to the datamodel
/// `next`.
pub open spec fn column_renames(previous: Option<&dml::Datamodel>, next: &dml::Datamodel) -> Seq<
    ColumnRenameView,
> {
    match previous {
        Some(before) => gather(next.models@.len(), column_renames_in(before, next)),
        None => Seq::empty(),
    }
}

/// The new name of the table that links `model` to another model because
/// of field `j`: one if the field was there before as an endpoint of a
/// relation to the same model that was called otherwise.
pub open spec fn table_rename_from(
    previous: &dml::Datamodel,
    next: &dml::Datamodel,
    model: &dml::Model,
) -> spec_fn(int) -> Seq<TableRenameView> {
    |j: int|
        {
            let field = &model.fields@[j];
            match field_before(previous, model, field) {
                Some((_, old)) => if link_tables_from(next, model, field).len() > 0 && (
                old.field_type matches FieldType::Relation(was) && was.to@
                    == field.field_type->Relation_0.to@ && was.name@
                    != field.field_type->Relation_0.name@) {
                    seq![
                        TableRenameView {
                            from: "_"@ + old.field_type->Relation_0.name@,
                            to: "_"@ + field.field_type->Relation_0.name@,
                        },
                    ]
                } else {
                    Seq::empty()
                },
                None => Seq::empty(),
            }
        }
}

/// The new names of the tables that link model `i` of `next` to other
/// models.
pub open spec fn table_renames_in(previous: &dml::Datamodel, next: &dml::Datamodel) -> spec_fn(
    int,
) -> Seq<TableRenameView> {
    |i: int|
        gather(
            next.models@[i].fields@.len(),
            table_rename_from(previous, next, &next.models@[i]),
        )
}

/// The new names of tables from the datamodel `previous` to the datamodel
/// `next`.
pub open spec fn table_renames(previous: Option<&dml::Datamodel>, next: &dml::Datamodel) -> Seq<
    TableRenameView,
> {
    match previous {
        Some(before) => gather(next.models@.len(), table_renames_in(before, next)),
        None => Seq::empty(),
    }
}

/// The field of `previous` that `field` was, see [`field_before`].
fn find_field_before<'a>(previous: &'a dml::Datamodel, model: &dml::Model, field: &dml::Field) -> (found:
    Option<(&'a dml::Model, &'a dml::Field)>)
    ensures
        match found {
            Some((before, old)) => field_before(previous, model, field) == Some((*before, *old)),
            None => field_before(previous, model, field) is None,
        },
{
    match previous.find_model(model.name.as_str()) {
        Some(before) => match before.find_field(field.name.as_str()) {
            Some(old) => Some((before, old)),
            None => None,
        },
        None => None,
    }
}

/// The new names of columns from the datamodel `previous` to the datamodel
/// `next`, see [`column_renames`].
pub fn find_column_renames(previous: Option<&dml::Datamodel>, next: &dml::Datamodel) -> (renames:
    Vec<ColumnRename>)
    ensures
        renames.deep_view() == column_renames(previous, next),
{
    let mut renames: Vec<ColumnRename> = Vec::new();
    assert(renames.deep_view() =~= Seq::<ColumnRenameView>::empty());
    let before = match previous {
        Some(before) => before,
        None => {
            return renames;
        },
    };
    let ghost outer = column_renames_in(before, next);
    let mut i: usize = 0;
    while i < next.models.len()
        invariant
            i <= next.models@.len(),
            outer == column_renames_in(before, next),
            renames.deep_view() == gather(i as nat, outer),
        decreases next.models@.len() - i,
    {
        let model = &next.models[i];
        let ghost start = renames.deep_view();
        let ghost inner = column_rename_from(before, model);
        let mut j: usize = 0;
        assert(renames.deep_view() =~= start + gather(0, inner));
        while j < model.fields.len()
            invariant
                j <= model.fields@.len(),
                inner == column_rename_from(before, model),
                renames.deep_view() == start + gather(j as nat, inner),
            decreases model.fields@.len() - j,
        {
            let ghost so_far = renames.deep_view();
            let field = &model.fields[j];
            let mut found = false;
            if let Some((was, old)) = find_field_before(before, model, field) {
                let table = table_name(model);
                let from = column_name(old);
                let to = column_name(field);
                if str_eq(table_name(was).as_str(), table.as_str()) && !str_eq(
                    from.as_str(),
                    to.as_str(),
                ) {
                    let rename = ColumnRename { table, from, to };
                    renames.push(rename);
                    found = true;
                    assert(renames.deep_view() =~= so_far + inner(j as int));
                }
            }
            if !found {
                assert(renames.deep_view() =~= so_far + inner(j as int));
            }
            assert(renames.deep_view() =~= start + gather((j + 1) as nat, inner));
            j += 1;
        }
        assert(renames.deep_view() =~= gather((i + 1) as nat, outer));
        i += 1;
    }
    renames
}

/// Whether a table links `model` to another model because of `field`.
fn links_because_of(next: &dml::Datamodel, model: &dml::Model, field: &dml::Field) -> (links: bool)
    ensures
        links == (link_tables_from(next, model, field).len() > 0),
{
    match find_companion(next, model, field) {
        Some((_, back)) => stands_on_side_a(model, field, back) && field.arity == FieldArity::List
            && back.arity == FieldArity::List,
        None => false,
    }
}

/// The new names of tables from the datamodel `previous` to the datamodel
/// `next`, see [`table_renames`].
pub fn find_table_renames(previous: Option<&dml::Datamodel>, next: &dml::Datamodel) -> (renames:
    Vec<TableRename>)
    ensures
        renames.deep_view() == table_renames(previous, next),
{
    let mut renames: Vec<TableRename> = Vec::new();
    assert(renames.deep_view() =~= Seq::<TableRenameView>::empty());
    let before = match previous {
        Some(before) => before,
        None => {
            return renames;
        },
    };
    let ghost outer = table_renames_in(before, next);
    let mut i: usize = 0;
    while i < next.models.len()
        invariant
            i <= next.models@.len(),
            outer == table_renames_in(before, next),
            renames.deep_view() == gather(i as nat, outer),
        decreases next.models@.len() - i,
    {
        let model = &next.models[i];
        let ghost start = renames.deep_view();
        let ghost inner = table_rename_from(before, next, model);
        let mut j: usize = 0;
        assert(renames.deep_view() =~= start + gather(0, inner));
        while j < model.fields.len()
            invariant
                j <= model.fields@.len(),
                inner == table_rename_from(before, next, model),
                renames.deep_view() == start + gather(j as nat, inner),
            decreases model.fields@.len() - j,
        {
            let ghost so_far = renames.deep_view();
            let field = &model.fields[j];
            let mut found = false;
            if let Some((_, old)) = find_field_before(before, model, field) {
                if links_because_of(next, model, field) {
                    if let FieldType::Relation(info) = &field.field_type {
                        if let FieldType::Relation(was) = &old.field_type {
                            if str_eq(was.to.as_str(), info.to.as_str()) && !str_eq(
                                was.name.as_str(),
                                info.name.as_str(),
                            ) {
                                let mut from = owned("_");
                                from.append(was.name.as_str());
                                let mut to = owned("_");
                                to.append(info.name.as_str());
                                let rename = TableRename { from, to };
                                renames.push(rename);
                                found = true;
                                assert(renames.deep_view() =~= so_far + inner(j as int));
                            }
                        }
                    }
                }
            }
            if !found {
                assert(renames.deep_view() =~= so_far + inner(j as int));
            }
            assert(renames.deep_view() =~= start + gather((j + 1) as nat, inner));
            j += 1;
        }
        assert(renames.deep_view() =~= gather((i + 1) as nat, outer));
        i += 1;
    }
    renames
}

} // verus!
