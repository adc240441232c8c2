//! What the library adds to a datamodel that was found valid: a name for
//! every relation without one, and for every relation field without a
//! counterpart the field that leads back.

use crate::dml;
use crate::dml::{
    DatamodelView, FieldArity, FieldType, FieldTypeView, FieldView, ModelView, OnDeleteStrategy,
    RelationInfoView,
};
use crate::text::{camel_case, camel_case_of, owned, precedes, str_eq, str_precedes};
use vstd::prelude::*;
use vstd::string::*;
use vstd::utf8::encode_utf8;

verus! {

/// The name of a relation between the models `model` and `to` that was
/// given none: the two names in the order of texts, with `To` between them.
pub open spec fn default_relation_name(model: Seq<char>, to: Seq<char>) -> Seq<char> {
    if precedes(encode_utf8(model), encode_utf8(to)) {
        model + "To"@ + to
    } else {
        to + "To"@ + model
    }
}

/// The name of a relation between the models `model` and `to` that was
/// given none, see [`default_relation_name`].
pub fn relation_name(model: &str, to: &str) -> (name: String)
    ensures
        name@ == default_relation_name(model@, to@),
{
    if str_precedes(model, to) {
        let mut name = owned(model);
        name.append("To");
        name.append(to);
        name
    } else {
        let mut name = owned(to);
        name.append("To");
        name.append(model);
        name
    }
}

/// The name of a relation does not depend on which of its two models is
/// named first: it is made of the name that stands first in the order of
/// texts, `To`, and the other name.
pub proof fn lemma_relation_name_is_stable(model: Seq<char>, to: Seq<char>)
    ensures
        default_relation_name(model, to) == default_relation_name(to, model),
        precedes(encode_utf8(model), encode_utf8(to)) ==> default_relation_name(model, to)
            == model + "To"@ + to,
        !precedes(encode_utf8(model), encode_utf8(to)) ==> precedes(
            encode_utf8(to),
            encode_utf8(model),
        ) && default_relation_name(model, to) == to + "To"@ + model,
{
    crate::text::lemma_precedes_is_total(encode_utf8(model), encode_utf8(to));
    if precedes(encode_utf8(model), encode_utf8(to)) && precedes(
        encode_utf8(to),
        encode_utf8(model),
    ) {
        crate::text::lemma_encoding_is_injective(model, to);
    }
}

/// `field`, a field of the model `model`, with the default name for its
/// relation if it is an endpoint of a relation without a name.
pub open spec fn named_field(model: Seq<char>, field: FieldView) -> FieldView {
    match field.field_type {
        FieldTypeView::Relation(info) => if info.name.len() == 0 {
            FieldView {
                field_type: FieldTypeView::Relation(
                    RelationInfoView { name: default_relation_name(model, info.to), ..info },
                ),
                ..field
            }
        } else {
            field
        },
        _ => field,
    }
}

/// `model` with a name for every relation of its fields.
pub open spec fn named_model(model: ModelView) -> ModelView {
    ModelView {
        fields: Seq::new(model.fields.len(), |j: int| named_field(model.name, model.fields[j])),
        ..model
    }
}

/// `datamodel` with a name for every relation.
pub open spec fn named(datamodel: DatamodelView) -> DatamodelView {
    DatamodelView {
        models: Seq::new(datamodel.models.len(), |i: int| named_model(datamodel.models[i])),
        ..datamodel
    }
}

/// Gives the relation of `field`, a field of the model `model`, a name if
/// it has none, see [`named_field`].
fn name_relation_of(model: &str, field: &mut dml::Field)
    ensures
        final(field)@ == named_field(model@, old(field)@),
{
    if let FieldType::Relation(info) = &field.field_type {
        if info.name.as_str().unicode_len() == 0 {
            let name = relation_name(model, info.to.as_str());
            let to = info.to.clone();
            let to_fields = crate::validator::directive::field::copy_names(&info.to_fields);
            let on_delete = info.on_delete;
            field.field_type =
            FieldType::Relation(dml::RelationInfo { to, to_fields, name, on_delete });
        }
    }
}

/// Gives every relation of the fields of `model` a name, see
/// [`named_model`].
fn name_relations_of(model: &mut dml::Model)
    ensures
        final(model)@ == named_model(old(model)@),
{
    let name = model.name.clone();
    let mut j: usize = 0;
    while j < model.fields.len()
        invariant
            j <= model.fields@.len(),
            name@ == old(model).name@,
            model.name == old(model).name,
            model.is_embedded == old(model).is_embedded,
            model.database_name == old(model).database_name,
            model.unique_criteria == old(model).unique_criteria,
            model.fields@.len() == old(model).fields@.len(),
            forall|k: int|
                0 <= k < j ==> (#[trigger] model.fields@[k])@ == named_field(
                    name@,
                    old(model).fields@[k]@,
                ),
            forall|k: int|
                j <= k < model.fields@.len() ==> #[trigger] model.fields@[k] == old(
                    model,
                ).fields@[k],
        decreases model.fields@.len() - j,
    {
        name_relation_of(name.as_str(), &mut model.fields[j]);
        j += 1;
    }
    assert(model@.fields =~= named_model(old(model)@).fields);
}

/// Gives every relation of `datamodel` a name, see [`named`].
pub fn name_unnamed_relations(datamodel: &mut dml::Datamodel)
    ensures
        final(datamodel)@ == named(old(datamodel)@),
{
    let mut i: usize = 0;
    while i < datamodel.models.len()
        invariant
            i <= datamodel.models@.len(),
            datamodel.enums == old(datamodel).enums,
            datamodel.models@.len() == old(datamodel).models@.len(),
            forall|k: int|
                0 <= k < i ==> (#[trigger] datamodel.models@[k])@ == named_model(
                    old(datamodel).models@[k]@,
                ),
            forall|k: int|
                i <= k < datamodel.models@.len() ==> #[trigger] datamodel.models@[k] == old(
                    datamodel,
                ).models@[k],
        decreases datamodel.models@.len() - i,
    {
        name_relations_of(&mut datamodel.models[i]);
        i += 1;
    }
    assert(datamodel@.models =~= named(old(datamodel)@).models);
}

/// A field that leads back, and the name of the model that it is added to.
pub struct BackRelation {
    pub model: String,
    pub field: dml::Field,
}

/// A field that leads back, and the name of the model that it is added to,
/// as plain values.
pub struct BackRelationView {
    pub model: Seq<char>,
    pub field: FieldView,
}

impl View for BackRelation {
    type V = BackRelationView;

    open spec fn view(&self) -> BackRelationView {
        BackRelationView { model: self.model@, field: self.field@ }
    }
}

impl DeepView for BackRelation {
    type V = BackRelationView;

    open spec fn deep_view(&self) -> BackRelationView {
        self@
    }
}

/// The field that leads back to the model `model` in the relation `name`:
/// an optional field that the library adds, called like `model` with a
/// lower-case letter at its start.
pub open spec fn back_field(model: Seq<char>, name: Seq<char>) -> FieldView {
    FieldView {
        name: camel_case_of(model),
        arity: FieldArity::Optional,
        field_type: FieldTypeView::Relation(
            RelationInfoView {
                to: model,
                to_fields: Seq::empty(),
                name,
                on_delete: OnDeleteStrategy::NoAction,
            },
        ),
        database_name: None,
        default_value: None,
        is_unique: false,
        is_id: false,
        is_generated: true,
        is_updated_at: false,
        is_created_at: false,
    }
}

/// The field that leads back from the model that `field`, a field of
/// `model`, refers to, if that model is part of `datamodel` and has no
/// endpoint of the relation to `model` but `field` itself.
pub open spec fn missing_for(datamodel: &dml::Datamodel, model: &dml::Model, field: &dml::Field) -> Seq<
    BackRelationView,
> {
    match field.field_type {
        FieldType::Relation(info) => match datamodel.spec_find_model(info.to@) {
            Some(related) => if related.has_endpoint(model.name@, info.name@, field.name@) {
                Seq::empty()
            } else {
                seq![BackRelationView { model: info.to@, field: back_field(model.name@, info.name@) }]
            },
            None => Seq::empty(),
        },
        _ => Seq::empty(),
    }
}

/// The fields that lead back from the models that the first `n` fields of
/// `model` refer to.
pub open spec fn missing_in_fields(datamodel: &dml::Datamodel, model: &dml::Model, n: nat) -> Seq<
    BackRelationView,
>
    decreases n,
{
    if n == 0 {
        Seq::empty()
    } else {
        missing_in_fields(datamodel, model, (n - 1) as nat) + missing_for(
            datamodel,
            model,
            &model.fields@[n - 1],
        )
    }
}

/// The fields that lead back from the models that the fields of the first
/// `n` models of `datamodel` refer to.
pub open spec fn missing_in_models(datamodel: &dml::Datamodel, n: nat) -> Seq<BackRelationView>
    decreases n,
{
    if n == 0 {
        Seq::empty()
    } else {
        missing_in_models(datamodel, (n - 1) as nat) + missing_in_fields(
            datamodel,
            &datamodel.models@[n - 1],
            datamodel.models@[n - 1].fields@.len(),
        )
    }
}

/// All fields that are missing in `datamodel` to lead back.
pub open spec fn missing_back_relations(datamodel: &dml::Datamodel) -> Seq<BackRelationView> {
    missing_in_models(datamodel, datamodel.models@.len())
}

/// The index of the first of `models` that is called `name`.
pub open spec fn index_of_model(models: Seq<ModelView>, name: Seq<char>) -> Option<int> {
    crate::first::first_where(models.len() as int, |i: int| models[i].name == name)
}

/// `models` after the first `n` of `added` were added, each at the end of
/// the first model of its name.
pub open spec fn with_back_relations(
    models: Seq<ModelView>,
    added: Seq<BackRelationView>,
    n: nat,
) -> Seq<ModelView>
    decreases n,
{
    if n == 0 {
        models
    } else {
        let before = with_back_relations(models, added, (n - 1) as nat);
        match index_of_model(before, added[n - 1].model) {
            Some(i) => before.update(
                i,
                ModelView { fields: before[i].fields.push(added[n - 1].field), ..before[i] },
            ),
            None => before,
        }
    }
}

/// `datamodel` with every field that was missing to lead back.
pub open spec fn completed(datamodel: &dml::Datamodel) -> DatamodelView {
    let added = missing_back_relations(datamodel);
    DatamodelView {
        models: with_back_relations(datamodel@.models, added, added.len()),
        ..datamodel@
    }
}

/// Adds to `missing` the field that leads back to field `j` of model `i`,
/// if there is none, see [`missing_for`].
fn find_missing_for(datamodel: &dml::Datamodel, i: usize, j: usize, missing: &mut Vec<
    BackRelation,
>)
    requires
        i < datamodel.models@.len(),
        j < datamodel.models@[i as int].fields@.len(),
    ensures
        final(missing).deep_view() == old(missing).deep_view() + missing_for(
            datamodel,
            &datamodel.models@[i as int],
            &datamodel.models@[i as int].fields@[j as int],
        ),
{
    let model = &datamodel.models[i];
    let field = &model.fields[j];
    if let FieldType::Relation(info) = &field.field_type {
        if let Some(related) = datamodel.find_model(info.to.as_str()) {
            if related.related_field(
                model.name.as_str(),
                info.name.as_str(),
                field.name.as_str(),
            ).is_none() {
                let mut back = dml::Field::new(
                    camel_case(model.name.as_str()).as_str(),
                    FieldType::Relation(
                        dml::RelationInfo {
                            to: model.name.clone(),
                            to_fields: Vec::new(),
                            name: info.name.clone(),
                            on_delete: OnDeleteStrategy::NoAction,
                        },
                    ),
                );
                back.arity = FieldArity::Optional;
                back.is_generated = true;
                assert(back@.field_type->Relation_0.to_fields =~= Seq::empty());
                let ghost before = missing.deep_view();
                let addition = BackRelation { model: info.to.clone(), field: back };
                missing.push(addition);
                assert(missing.deep_view() =~= before.push(addition@));
                assert(missing.deep_view() =~= before + seq![addition@]);
                return ;
            }
        }
    }
    assert(missing.deep_view() =~= old(missing).deep_view() + Seq::<BackRelationView>::empty());
}

/// All fields that are missing in `datamodel` to lead back, see
/// [`missing_back_relations`].
fn find_missing_back_relations(datamodel: &dml::Datamodel) -> (missing: Vec<BackRelation>)
    ensures
        missing.deep_view() == missing_back_relations(datamodel),
{
    let mut missing: Vec<BackRelation> = Vec::new();
    let mut i: usize = 0;
    assert(missing.deep_view() =~= missing_in_models(datamodel, 0));
    while i < datamodel.models.len()
        invariant
            i <= datamodel.models@.len(),
            missing.deep_view() == missing_in_models(datamodel, i as nat),
        decreases datamodel.models@.len() - i,
    {
        let ghost before = missing.deep_view();
        let mut j: usize = 0;
        assert(missing.deep_view() =~= before + missing_in_fields(
            datamodel,
            &datamodel.models@[i as int],
            0,
        ));
        while j < datamodel.models[i].fields.len()
            invariant
                i < datamodel.models@.len(),
                j <= datamodel.models@[i as int].fields@.len(),
                missing.deep_view() == before + missing_in_fields(
                    datamodel,
                    &datamodel.models@[i as int],
                    j as nat,
                ),
            decreases datamodel.models@[i as int].fields@.len() - j,
        {
            let ghost found = missing_in_fields(datamodel, &datamodel.models@[i as int], j as nat);
            find_missing_for(datamodel, i, j, &mut missing);
            assert(missing.deep_view() =~= before + missing_in_fields(
                datamodel,
                &datamodel.models@[i as int],
                (j + 1) as nat,
            ));
            j += 1;
        }
        i += 1;
    }
    missing
}

/// Adds every field that is missing in `datamodel` to lead back, see
/// [`completed`].
pub fn add_missing_back_relations(datamodel: &mut dml::Datamodel)
    ensures
        final(datamodel)@ == completed(old(datamodel)),
{
    let mut missing = find_missing_back_relations(datamodel);
    let ghost added = missing.deep_view();
    let ghost start = datamodel@.models;
    let count = missing.len();
    // The fields are taken from the end of `missing`, so they are put in
    // reverse and then added from the end again.
    let mut reversed: Vec<BackRelation> = Vec::new();
    while missing.len() > 0
        invariant
            missing@.len() + reversed@.len() == added.len(),
            forall|k: int| 0 <= k < missing@.len() ==> (#[trigger] missing@[k])@ == added[k],
            forall|k: int|
                0 <= k < reversed@.len() ==> (#[trigger] reversed@[k])@ == added[added.len() - 1
                    - k],
        decreases missing@.len(),
    {
        let last = missing.pop().unwrap();
        reversed.push(last);
    }
    let mut n: usize = 0;
    while reversed.len() > 0
        invariant
            n + reversed@.len() == added.len(),
            added.len() == count,
            datamodel.enums == old(datamodel).enums,
            forall|k: int|
                0 <= k < reversed@.len() ==> (#[trigger] reversed@[k])@ == added[added.len() - 1
                    - k],
            datamodel@.models == with_back_relations(start, added, n as nat),
        decreases reversed@.len(),
    {
        let addition = reversed.pop().unwrap();
        assert(addition@ == added[n as int]);
        let ghost before = datamodel@.models;
        let ghost named = |i: int| before[i].name == addition.model@;
        let mut i: usize = 0;
        let mut place: Option<usize> = None;
        while i < datamodel.models.len()
            invariant_except_break
                place is None,
                forall|k: int| 0 <= k < i ==> !#[trigger] named(k),
            invariant
                i <= datamodel.models@.len(),
                before == datamodel@.models,
                named == (|i: int| before[i].name == addition.model@),
            ensures
                match place {
                    Some(p) => index_of_model(before, addition.model@) == Some(p as int) && p
                        < datamodel.models@.len(),
                    None => index_of_model(before, addition.model@) is None,
                },
            decreases datamodel.models@.len() - i,
        {
            if str_eq(datamodel.models[i].name.as_str(), addition.model.as_str()) {
                proof {
                    assert(named(i as int));
                    crate::first::lemma_first_where_is(before.len() as int, named, i as int);
                }
                place = Some(i);
                break ;
            }
            assert(!named(i as int));
            i += 1;
        }
        proof {
            if place is None {
                crate::first::lemma_first_where(before.len() as int, named);
            }
        }
        match place {
            Some(p) => {
                let ghost fields = datamodel.models@[p as int].fields.deep_view();
                datamodel.models[p].fields.push(addition.field);
                assert(datamodel.models@[p as int]@.fields =~= fields.push(addition@.field));
                assert(datamodel@.models =~= before.update(
                    p as int,
                    ModelView { fields: before[p as int].fields.push(addition@.field), ..before[p as int] },
                ));
            },
            None => {},
        }
        n += 1;
    }
}

/// Names the relations of `datamodel` without a name and then adds the
/// fields that are missing to lead back.
pub fn standardise(datamodel: &mut dml::Datamodel)
    ensures
        exists|with_names: dml::Datamodel|
            with_names@ == named(old(datamodel)@) && final(datamodel)@ == completed(&with_names),
{
    name_unnamed_relations(datamodel);
    let ghost with_names = *datamodel;
    add_missing_back_relations(datamodel);
    assert(with_names@ == named(old(datamodel)@) && datamodel@ == completed(&with_names));
}

} // verus!
