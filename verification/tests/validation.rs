use datamodel::ast::Span;
use datamodel::dml;
use datamodel::errors::{ErrorCollection, ValidationError};

fn parse(datamodel_string: &str) -> dml::Datamodel {
    match datamodel::parse(datamodel_string) {
        Ok(datamodel) => datamodel,
        Err(errors) => panic!("Expected a valid schema, but got {:?}", errors),
    }
}

fn parse_error(datamodel_string: &str) -> ErrorCollection {
    match datamodel::parse(datamodel_string) {
        Ok(_) => panic!("Expected an error when parsing schema."),
        Err(errs) => errs,
    }
}

fn assert_is(errors: &ErrorCollection, error: ValidationError) {
    assert_eq!(errors.errors.len(), 1);
    assert_eq!(errors.errors[0], error);
}

fn span_of(text: &str, part: &str) -> Span {
    let start = text.find(part).unwrap();
    Span::new(start, start + part.len())
}

#[test]
fn two_unnamed_relations_to_one_model_are_ambiguous() {
    let dml = "model Blog { id Int @id post1 Post post2 Post }";
    let errors = parse_error(dml);
    assert_is(
        &errors,
        ValidationError::new_model_validation_error(
            "Ambiguous relation detected.",
            "Blog",
            span_of(dml, "post1 Post"),
        ),
    );
}

#[test]
fn ambiguous_relation_is_reported_at_the_first_field() {
    let dml = r#"
    model User {
        id Int @id
        posts Post[]
        more_posts Post[]
    }

    model Post {
        post_id Int @id
    }
    "#;
    let errors = parse_error(dml);
    assert_is(
        &errors,
        ValidationError::new_model_validation_error(
            "Ambiguous relation detected.",
            "User",
            Span::new(45, 57),
        ),
    );
}

#[test]
fn named_relations_to_one_model_are_not_ambiguous() {
    let datamodel = parse(
        r#"
        model Blog {
            id    Int  @id
            post1 Post @relation(name: "Relation1")
            post2 Post @relation(name: "Relation2")
        }

        model Post {
            id    Int  @id
            blog1 Blog @relation(name: "Relation1")
            blog2 Blog @relation(name: "Relation2")
        }
        "#,
    );
    assert_eq!(datamodel.models.len(), 2);
    assert_eq!(datamodel.models[0].fields.len(), 3);
    assert_eq!(datamodel.models[1].fields.len(), 3);
}

#[test]
fn three_fields_of_one_self_relation_are_ambiguous() {
    let dml = r#"
    model User {
        id Int @id
        father User
        son User
        mother User
    }
    "#;
    let errors = parse_error(dml);
    assert_is(
        &errors,
        ValidationError::new_model_validation_error(
            "Ambiguous self relation detected.",
            "User",
            span_of(dml, "father User"),
        ),
    );
}

#[test]
fn two_fields_of_one_self_relation_are_accepted() {
    let datamodel = parse(
        r#"
        model User {
            id Int @id
            parent User?
            children User[]
        }
        "#,
    );
    let user = datamodel.find_model("User").unwrap();
    assert_eq!(user.fields.len(), 3);
}

#[test]
fn an_id_of_type_float_is_refused() {
    let dml = "model X { id Float @id }";
    let errors = parse_error(dml);
    assert_is(
        &errors,
        ValidationError::new_model_validation_error(
            "Invalid ID field. ID field must be one of: Int @id, String @id @default(cuid()), String @id @default(uuid()).",
            "X",
            span_of(dml, "id Float @id"),
        ),
    );
}

#[test]
fn the_three_shapes_of_an_id_are_accepted() {
    parse("model A { id Int @id }");
    parse("model B { id String @id @default(cuid()) }");
    parse("model C { id String @id @default(uuid()) }");
}

#[test]
fn an_optional_id_and_an_int_id_with_default_are_refused() {
    let optional = "model A { id Int? @id }";
    assert_is(
        &parse_error(optional),
        ValidationError::new_model_validation_error(
            "Invalid ID field. ID field must be one of: Int @id, String @id @default(cuid()), String @id @default(uuid()).",
            "A",
            span_of(optional, "id Int? @id"),
        ),
    );
    let with_default = "model A { id Int @id @default(3) }";
    assert_eq!(parse_error(with_default).errors.len(), 1);
    let string_without_default = "model A { id String @id }";
    assert_eq!(parse_error(string_without_default).errors.len(), 1);
    let string_with_now = "model A { id String @id @default(\"x\") }";
    assert_eq!(parse_error(string_with_now).errors.len(), 1);
}

#[test]
fn a_model_without_id_is_refused() {
    let dml = "model A { name String }";
    let errors = parse_error(dml);
    assert_is(
        &errors,
        ValidationError::new_model_validation_error(
            "Exactly one field must be marked as the id field with the `@id` directive.",
            "A",
            Span::new(0, dml.len()),
        ),
    );
}

#[test]
fn a_model_with_two_ids_is_refused() {
    let dml = "model A { a Int @id b Int @id }";
    let errors = parse_error(dml);
    assert_is(
        &errors,
        ValidationError::new_model_validation_error(
            "Exactly one field must be marked as the id field with the `@id` directive.",
            "A",
            Span::new(0, dml.len()),
        ),
    );
}

#[test]
fn a_relation_model_needs_no_id() {
    let datamodel = parse(
        r#"
        model A { id Int @id links Link[] }
        model B { id Int @id links Link[] }
        model Link { a A b B }
        "#,
    );
    assert!(datamodel.find_model("Link").unwrap().is_relation_model());
    assert!(!datamodel.find_model("A").unwrap().is_relation_model());
}

#[test]
fn an_embedded_model_cannot_lead_back() {
    let dml = "model Parent { id Int @id children Child[] } model Child @@embedded { id Int @id parent Parent }";
    let errors = parse_error(dml);
    assert_is(
        &errors,
        ValidationError::new_model_validation_error(
            "Embedded models cannot have back relation fields.",
            "Child",
            span_of(dml, "parent Parent"),
        ),
    );
}

#[test]
fn an_embedded_model_may_be_marked_inside_its_braces() {
    let dml = r#"
        model Parent { id Int @id children Child[] }
        model Child {
            id Int @id
            parent Parent
            @@embedded
        }
    "#;
    let errors = parse_error(dml);
    assert_is(
        &errors,
        ValidationError::new_model_validation_error(
            "Embedded models cannot have back relation fields.",
            "Child",
            span_of(dml, "parent Parent"),
        ),
    );
}

#[test]
fn all_errors_of_all_models_are_collected() {
    let dml = "model A { name String } model B { id Float @id } model C { id Int @id x D y D }";
    let errors = parse_error(dml);
    assert_eq!(errors.errors.len(), 3);
    assert_eq!(
        errors.errors[0],
        ValidationError::new_model_validation_error(
            "Exactly one field must be marked as the id field with the `@id` directive.",
            "A",
            span_of(dml, "model A { name String }"),
        )
    );
    assert_eq!(
        errors.errors[1],
        ValidationError::new_model_validation_error(
            "Invalid ID field. ID field must be one of: Int @id, String @id @default(cuid()), String @id @default(uuid()).",
            "B",
            span_of(dml, "id Float @id"),
        )
    );
    assert_eq!(
        errors.errors[2],
        ValidationError::new_model_validation_error(
            "Ambiguous relation detected.",
            "C",
            span_of(dml, "x D"),
        )
    );
}

#[test]
fn a_field_of_an_unknown_type_is_refused() {
    let dml = "model A { id Int @id b Foo }";
    let errors = parse_error(dml);
    assert_is(
        &errors,
        ValidationError::new_field_validation_error(
            "Type \"Foo\" is neither a built-in type, nor refers to another model, custom type, or enum.",
            "A",
            "b",
            span_of(dml, "Foo"),
        ),
    );
}

#[test]
fn an_unknown_directive_is_refused_at_its_place() {
    let dml = "model A { id Int @id @bogus }";
    let errors = parse_error(dml);
    assert_is(
        &errors,
        ValidationError::new_directive_validation_error(
            "Encountered unknown directive.",
            "bogus",
            span_of(dml, "bogus"),
        ),
    );
}

#[test]
fn a_state_error_is_given_where_the_tree_lacks_a_model() {
    let tree = datamodel::parser::parse("model A { id Int @id }").unwrap();
    let mut schema = dml::Datamodel::new();
    let mut model = dml::Model::new("B");
    let mut id = dml::Field::new("id", dml::FieldType::Base(dml::ScalarType::Int));
    id.is_id = true;
    model.add_field(id);
    schema.add_model(model);
    let validator = datamodel::validator::Validator::new();
    let errors = validator.validate(&tree, &mut schema).unwrap_err();
    assert_is(
        &errors,
        ValidationError::new_state_error(
            "Failed lookup of model, field or optional property during internal processing. This means that the internal representation was mutated incorrectly.",
        ),
    );
}

fn relation(name: &str, to: &str, relation_name: &str) -> dml::Field {
    let mut info = dml::RelationInfo::new(to);
    info.name = relation_name.to_string();
    dml::Field::new(name, dml::FieldType::Relation(info))
}

fn int_id() -> dml::Field {
    let mut id = dml::Field::new("id", dml::FieldType::Base(dml::ScalarType::Int));
    id.is_id = true;
    id
}

fn tree_of(text: &str) -> datamodel::ast::Datamodel {
    datamodel::parser::parse(text).unwrap()
}

#[test]
fn the_rule_on_ids_counts_id_fields() {
    let tree = tree_of("model A { id Int a Int }");
    let ast_model = tree.find_model("A").unwrap();
    let validator = datamodel::validator::Validator::new();
    let mut model = dml::Model::new("A");
    let missing = ValidationError::new_model_validation_error(
        "Exactly one field must be marked as the id field with the `@id` directive.",
        "A",
        ast_model.span,
    );
    assert_eq!(validator.validate_model_has_id(ast_model, &model), Err(missing.clone()));
    model.add_field(int_id());
    assert_eq!(model.count_id_fields(), 1);
    assert_eq!(validator.validate_model_has_id(ast_model, &model), Ok(()));
    model.add_field(int_id());
    assert_eq!(model.count_id_fields(), 2);
    assert_eq!(validator.validate_model_has_id(ast_model, &model), Err(missing));
    let mut link = dml::Model::new("A");
    link.add_field(relation("a", "X", ""));
    link.add_field(relation("b", "Y", ""));
    assert_eq!(validator.validate_model_has_id(ast_model, &link), Ok(()));
    let mut optional = relation("c", "Z", "");
    optional.arity = dml::FieldArity::Optional;
    link.add_field(optional);
    assert_eq!(validator.validate_model_has_id(ast_model, &link), Ok(()));
    link.add_field(relation("d", "Z", ""));
    assert!(validator.validate_model_has_id(ast_model, &link).is_err());
}

#[test]
fn the_rule_on_id_shapes_reports_the_first_id_of_another_shape() {
    let text = "model A { a Int b Float c Int }";
    let tree = tree_of(text);
    let validator = datamodel::validator::Validator::new();
    let mut model = dml::Model::new("A");
    let mut a = dml::Field::new("a", dml::FieldType::Base(dml::ScalarType::Int));
    a.is_id = true;
    let mut b = dml::Field::new("b", dml::FieldType::Base(dml::ScalarType::Float));
    b.is_id = true;
    let mut c = dml::Field::new("c", dml::FieldType::Base(dml::ScalarType::Int));
    c.is_id = true;
    c.arity = dml::FieldArity::List;
    model.add_field(dml::Field::new("x", dml::FieldType::Base(dml::ScalarType::Float)));
    model.add_field(a);
    assert_eq!(validator.validate_id_fields_valid(&tree, &model), Ok(()));
    model.add_field(b);
    model.add_field(c);
    assert_eq!(
        validator.validate_id_fields_valid(&tree, &model),
        Err(ValidationError::new_model_validation_error(
            "Invalid ID field. ID field must be one of: Int @id, String @id @default(cuid()), String @id @default(uuid()).",
            "A",
            span_of(text, "b Float"),
        ))
    );
    let mut with_arguments = dml::Model::new("A");
    let mut id = dml::Field::new("a", dml::FieldType::Base(dml::ScalarType::String));
    id.is_id = true;
    id.default_value = Some(dml::Value::Expression(
        "cuid".to_string(),
        dml::ScalarType::String,
        vec![dml::Value::Int(1)],
    ));
    with_arguments.add_field(id);
    assert!(validator.validate_id_fields_valid(&tree, &with_arguments).is_err());
    let mut of_other_type = dml::Model::new("A");
    let mut id = dml::Field::new("a", dml::FieldType::Base(dml::ScalarType::String));
    id.is_id = true;
    id.default_value = Some(dml::Value::Expression(
        "uuid".to_string(),
        dml::ScalarType::Int,
        vec![],
    ));
    of_other_type.add_field(id);
    assert!(validator.validate_id_fields_valid(&tree, &of_other_type).is_err());
}

#[test]
fn the_rule_on_relations_tells_relations_to_others_from_those_to_itself() {
    let text = "model A { p X q X r A s A t A }";
    let tree = tree_of(text);
    let validator = datamodel::validator::Validator::new();
    let at = |field: &str, message: &str| {
        Err(ValidationError::new_model_validation_error(
            message,
            "A",
            span_of(text, field),
        ))
    };
    let mut model = dml::Model::new("A");
    model.add_field(relation("p", "X", "one"));
    model.add_field(relation("q", "Y", "one"));
    model.add_field(relation("r", "A", "one"));
    assert_eq!(validator.validate_relations_not_ambiguous(&tree, &model), Ok(()));
    model.add_field(relation("s", "A", "one"));
    // `p` and `r` share their name with `s`, a third field that refers to
    // the model itself.
    assert_eq!(
        validator.validate_relations_not_ambiguous(&tree, &model),
        at("p X", "Ambiguous self relation detected.")
    );
    let mut others = dml::Model::new("A");
    others.add_field(relation("r", "A", "self"));
    others.add_field(relation("p", "X", "one"));
    others.add_field(relation("s", "A", "self"));
    others.add_field(relation("q", "X", "one"));
    assert_eq!(
        validator.validate_relations_not_ambiguous(&tree, &others),
        at("p X", "Ambiguous relation detected.")
    );
    others.add_field(relation("t", "A", "self"));
    assert_eq!(
        validator.validate_relations_not_ambiguous(&tree, &others),
        at("r A", "Ambiguous self relation detected.")
    );
    let mut unknown = dml::Model::new("A");
    unknown.add_field(relation("u", "X", "one"));
    unknown.add_field(relation("v", "X", "one"));
    assert_eq!(
        validator.validate_relations_not_ambiguous(&tree, &unknown),
        Err(ValidationError::new_state_error(
            "Failed lookup of model, field or optional property during internal processing. This means that the internal representation was mutated incorrectly.",
        ))
    );
}

#[test]
fn the_rule_on_embedded_models_looks_at_the_field_that_leads_back() {
    let text = "model Child { parent Parent other Parent }";
    let tree = tree_of(text);
    let validator = datamodel::validator::Validator::new();
    let state_error = || {
        Err(ValidationError::new_state_error(
            "Failed lookup of model, field or optional property during internal processing. This means that the internal representation was mutated incorrectly.",
        ))
    };
    let build = |embedded: bool, generated_back: bool, references: bool, with_back: bool| {
        let mut schema = dml::Datamodel::new();
        let mut parent = dml::Model::new("Parent");
        parent.add_field(int_id());
        if with_back {
            let mut back = relation("children", "Child", "Family");
            back.is_generated = generated_back;
            parent.add_field(back);
        }
        let mut child = dml::Model::new("Child");
        child.is_embedded = embedded;
        let mut field = relation("parent", "Parent", "Family");
        if references {
            if let dml::FieldType::Relation(info) = &mut field.field_type {
                info.to_fields = vec!["id".to_string()];
            }
        }
        child.add_field(field);
        schema.add_model(parent);
        schema.add_model(child);
        schema
    };
    let check = |schema: &dml::Datamodel| {
        validator.validate_embedded_types_have_no_back_relation(&tree, schema, &schema.models[1])
    };
    let refused = Err(ValidationError::new_model_validation_error(
        "Embedded models cannot have back relation fields.",
        "Child",
        span_of(text, "parent Parent"),
    ));
    assert_eq!(check(&build(true, false, false, true)), refused);
    assert_eq!(check(&build(false, false, false, true)), Ok(()));
    assert_eq!(check(&build(true, true, false, true)), Ok(()));
    assert_eq!(check(&build(true, false, true, true)), Ok(()));
    assert_eq!(check(&build(true, false, false, false)), state_error());
    assert_eq!(check(&build(false, false, false, false)), Ok(()));
    let mut lonely = dml::Datamodel::new();
    let mut child = dml::Model::new("Child");
    child.is_embedded = true;
    let mut generated = relation("made", "Nowhere", "");
    generated.is_generated = true;
    child.add_field(generated);
    child.add_field(relation("parent", "Parent", "Family"));
    lonely.add_model(child);
    assert_eq!(
        validator.validate_embedded_types_have_no_back_relation(&tree, &lonely, &lonely.models[0]),
        state_error()
    );
}

#[test]
fn validation_leaves_the_datamodel_as_it_was() {
    let text = "model A { id Int @id b B } model B { id Int @id a A[] }";
    let tree = tree_of(text);
    let mut schema = datamodel::validator::lift::lift(&tree).unwrap();
    let before = datamodel::validator::lift::lift(&tree).unwrap();
    assert_eq!(
        datamodel::validator::Validator::new().validate(&tree, &mut schema),
        Ok(())
    );
    assert_eq!(schema, before);
}
