use datamodel::ast;
use datamodel::ast::Span;
use datamodel::dml;
use datamodel::errors::ValidationError;
use datamodel::validator::directive::embedded::EmbeddedDirectiveValidator;
use datamodel::validator::directive::field::{
    DefaultDirectiveValidator, IdDirectiveValidator, MapDirectiveValidator,
    RelationDirectiveValidator, UniqueDirectiveValidator, UpdatedAtDirectiveValidator,
};
use datamodel::validator::directive::model::{
    ModelMapDirectiveValidator, ModelUniqueDirectiveValidator,
};
use datamodel::validator::directive::{Args, DirectiveValidator};

fn parse(datamodel_string: &str) -> dml::Datamodel {
    match datamodel::parse(datamodel_string) {
        Ok(datamodel) => datamodel,
        Err(errors) => panic!("Expected a valid schema, but got {:?}", errors),
    }
}

fn parse_errors(datamodel_string: &str) -> Vec<ValidationError> {
    match datamodel::parse(datamodel_string) {
        Ok(_) => panic!("Expected an error when parsing schema."),
        Err(errs) => errs.errors,
    }
}

fn span_of(text: &str, part: &str) -> Span {
    let start = text.find(part).unwrap();
    Span::new(start, start + part.len())
}

fn field<'a>(datamodel: &'a dml::Datamodel, model: &str, field: &str) -> &'a dml::Field {
    datamodel.find_model(model).unwrap().find_field(field).unwrap()
}

/// Applies the directive to a copy of what the arguments were read from and
/// writes it again.
fn directive_of(text: &str) -> ast::Directive {
    let tree = datamodel::parser::parse(text).unwrap();
    for top in tree.models {
        if let ast::Top::Model(model) = top {
            for field in model.fields {
                for directive in field.directives {
                    return directive;
                }
            }
            for directive in model.directives {
                return directive;
            }
        }
    }
    panic!("no directive in the text");
}

#[test]
fn embedded_is_called_embedded() {
    assert_eq!(EmbeddedDirectiveValidator {}.directive_name(), "embedded");
}

#[test]
fn embedded_marks_the_model_and_nothing_else() {
    let mut model = dml::Model::new("Child");
    model.add_field(dml::Field::new("id", dml::FieldType::Base(dml::ScalarType::Int)));
    model.database_name = Some("children".to_string());
    let arguments = Vec::new();
    let mut args = Args::new(&arguments, Span::new(3, 11));
    let result = EmbeddedDirectiveValidator {}.validate_and_apply(&mut args, &mut model);
    assert_eq!(result, Ok(()));
    assert_eq!(model.is_embedded, true);
    assert_eq!(model.name, "Child");
    assert_eq!(model.fields.len(), 1);
    assert_eq!(model.database_name, Some("children".to_string()));
}

#[test]
fn embedded_is_written_for_embedded_models_only() {
    let datamodel = dml::Datamodel::new();
    let mut model = dml::Model::new("Child");
    let validator = EmbeddedDirectiveValidator {};
    assert_eq!(validator.serialize(&model, &datamodel), Ok(None));
    model.is_embedded = true;
    assert_eq!(
        validator.serialize(&model, &datamodel),
        Ok(Some(ast::Directive::new("embedded", vec![])))
    );
}

#[test]
fn embedded_comes_back_after_it_was_applied() {
    let original = directive_of("model Child @@embedded { id Int }");
    assert_eq!(original.name, "embedded");
    let mut model = dml::Model::new("Child");
    let mut args = Args::new(&original.arguments, original.span);
    let validator = EmbeddedDirectiveValidator {};
    validator.validate_and_apply(&mut args, &mut model).unwrap();
    let written = validator.serialize(&model, &dml::Datamodel::new()).unwrap().unwrap();
    assert_eq!(written.name, original.name);
    assert_eq!(written.arguments, original.arguments);
}

#[test]
fn flags_come_back_after_they_were_applied() {
    let datamodel = dml::Datamodel::new();
    let arguments = Vec::new();
    let mut field = dml::Field::new("f", dml::FieldType::Base(dml::ScalarType::DateTime));
    assert_eq!(IdDirectiveValidator {}.serialize(&field, &datamodel), Ok(None));
    IdDirectiveValidator {}
        .validate_and_apply(&mut Args::new(&arguments, Span::empty()), &mut field)
        .unwrap();
    UniqueDirectiveValidator {}
        .validate_and_apply(&mut Args::new(&arguments, Span::empty()), &mut field)
        .unwrap();
    UpdatedAtDirectiveValidator {}
        .validate_and_apply(&mut Args::new(&arguments, Span::empty()), &mut field)
        .unwrap();
    assert!(field.is_id && field.is_unique && field.is_updated_at && !field.is_created_at);
    assert_eq!(
        IdDirectiveValidator {}.serialize(&field, &datamodel),
        Ok(Some(ast::Directive::new("id", vec![])))
    );
    assert_eq!(
        UniqueDirectiveValidator {}.serialize(&field, &datamodel),
        Ok(Some(ast::Directive::new("unique", vec![])))
    );
    assert_eq!(
        UpdatedAtDirectiveValidator {}.serialize(&field, &datamodel),
        Ok(Some(ast::Directive::new("updatedAt", vec![])))
    );
}

#[test]
fn map_comes_back_with_its_name() {
    let positional = directive_of("model A { f String @map(\"column\") }");
    let named = directive_of("model A { f String @map(name: \"column\") }");
    let validator = MapDirectiveValidator {};
    for original in vec![positional, named] {
        let mut field = dml::Field::new("f", dml::FieldType::Base(dml::ScalarType::String));
        validator
            .validate_and_apply(&mut Args::new(&original.arguments, original.span), &mut field)
            .unwrap();
        assert_eq!(field.database_name, Some("column".to_string()));
        let written = validator.serialize(&field, &dml::Datamodel::new()).unwrap().unwrap();
        assert_eq!(written.name, "map");
        assert_eq!(written.arguments.len(), 1);
        assert_eq!(written.arguments[0].name, "name");
        assert_eq!(
            written.arguments[0].value,
            ast::Value::StringValue("column".to_string(), Span::empty())
        );
        let mut again = dml::Field::new("f", dml::FieldType::Base(dml::ScalarType::String));
        validator
            .validate_and_apply(&mut Args::new(&written.arguments, written.span), &mut again)
            .unwrap();
        assert_eq!(again, field);
    }
}

#[test]
fn map_on_a_model_names_its_table() {
    let datamodel = parse("model A { id Int @id @@map(name: \"table_a\") }");
    let model = datamodel.find_model("A").unwrap();
    assert_eq!(model.database_name, Some("table_a".to_string()));
    let written = ModelMapDirectiveValidator {}.serialize(model, &datamodel).unwrap().unwrap();
    assert_eq!(written.name, "map");
    assert_eq!(
        written.arguments[0].value,
        ast::Value::StringValue("table_a".to_string(), Span::empty())
    );
}

#[test]
fn default_values_are_read_by_the_type_of_the_field() {
    let datamodel = parse(
        r#"
        model A {
            id String @id @default(cuid())
            number Int @default(-42)
            ratio Float @default(1.5)
            flag Boolean @default(false)
            text String @default("hello")
            created DateTime @default(now())
            color Color @default(RED)
        }
        enum Color { RED GREEN }
        "#,
    );
    assert_eq!(
        field(&datamodel, "A", "id").default_value,
        Some(dml::Value::Expression("cuid".to_string(), dml::ScalarType::String, vec![]))
    );
    assert_eq!(field(&datamodel, "A", "number").default_value, Some(dml::Value::Int(-42)));
    assert_eq!(
        field(&datamodel, "A", "ratio").default_value,
        Some(dml::Value::Float("1.5".to_string()))
    );
    assert_eq!(field(&datamodel, "A", "flag").default_value, Some(dml::Value::Boolean(false)));
    assert_eq!(
        field(&datamodel, "A", "text").default_value,
        Some(dml::Value::String("hello".to_string()))
    );
    assert_eq!(
        field(&datamodel, "A", "created").default_value,
        Some(dml::Value::Expression("now".to_string(), dml::ScalarType::DateTime, vec![]))
    );
    assert!(field(&datamodel, "A", "created").is_created_at);
    assert!(!field(&datamodel, "A", "text").is_created_at);
    assert_eq!(
        field(&datamodel, "A", "color").default_value,
        Some(dml::Value::ConstantLiteral("RED".to_string()))
    );
    assert_eq!(
        field(&datamodel, "A", "color").field_type,
        dml::FieldType::Enum("Color".to_string())
    );
}

#[test]
fn default_values_come_back_after_they_were_applied() {
    let cases = vec![
        ("model A { f Int @default(2147483647) }", dml::ScalarType::Int),
        ("model A { f Int @default(-2147483648) }", dml::ScalarType::Int),
        ("model A { f Int @default(0) }", dml::ScalarType::Int),
        ("model A { f Boolean @default(true) }", dml::ScalarType::Boolean),
        ("model A { f String @default(uuid()) }", dml::ScalarType::String),
        ("model A { f DateTime @default(\"2019-07-01\") }", dml::ScalarType::DateTime),
        ("model A { f Decimal @default(3.25) }", dml::ScalarType::Decimal),
    ];
    let validator = DefaultDirectiveValidator {};
    for (text, scalar) in cases {
        let original = directive_of(text);
        let mut field = dml::Field::new("f", dml::FieldType::Base(scalar));
        validator
            .validate_and_apply(&mut Args::new(&original.arguments, original.span), &mut field)
            .unwrap();
        let written = validator.serialize(&field, &dml::Datamodel::new()).unwrap().unwrap();
        assert_eq!(written.name, "default");
        let mut again = dml::Field::new("f", dml::FieldType::Base(scalar));
        validator
            .validate_and_apply(&mut Args::new(&written.arguments, written.span), &mut again)
            .unwrap();
        assert_eq!(again, field);
    }
}

#[test]
fn an_integer_that_is_too_large_is_no_default() {
    let text = "model A { id Int @id f Int @default(2147483648) }";
    assert_eq!(
        parse_errors(text),
        vec![ValidationError::new_directive_validation_error(
            "The default value does not fit the type of the field.",
            "default",
            span_of(text, "2147483648"),
        )]
    );
}

#[test]
fn a_default_of_another_type_is_refused() {
    let text = "model A { id Int @id f Int @default(\"three\") g String @default(now()) }";
    assert_eq!(
        parse_errors(text),
        vec![
            ValidationError::new_directive_validation_error(
                "The default value does not fit the type of the field.",
                "default",
                span_of(text, "\"three\""),
            ),
            ValidationError::new_directive_validation_error(
                "The default value does not fit the type of the field.",
                "default",
                span_of(text, "now()"),
            ),
        ]
    );
}

#[test]
fn a_missing_argument_is_reported_at_the_directive() {
    let text = "model A { id Int @id f String @map() g Int @default() }";
    assert_eq!(
        parse_errors(text),
        vec![
            ValidationError::new_directive_validation_error(
                "Argument \"name\" is missing.",
                "map",
                span_of(text, "map()"),
            ),
            ValidationError::new_directive_validation_error(
                "Argument \"value\" is missing.",
                "default",
                span_of(text, "default()"),
            ),
        ]
    );
}

#[test]
fn an_argument_that_is_given_twice_is_refused() {
    let text = "model A { id Int @id f String @map(\"a\", name: \"b\") }";
    assert_eq!(
        parse_errors(text),
        vec![ValidationError::new_directive_validation_error(
            "Argument \"name\" is given twice.",
            "map",
            span_of(text, "name: \"b\""),
        )]
    );
}

#[test]
fn a_name_that_is_no_string_is_refused() {
    let text = "model A { id Int @id f String @map(name: 3) }";
    assert_eq!(
        parse_errors(text),
        vec![ValidationError::new_directive_validation_error(
            "Expected a string value.",
            "map",
            span_of(text, "3"),
        )]
    );
}

#[test]
fn updated_at_is_for_single_dates_only() {
    let text = "model A { id Int @id a String @updatedAt b DateTime[] @updatedAt c DateTime @updatedAt }";
    let errors = parse_errors(text);
    assert_eq!(
        errors,
        vec![
            ValidationError::new_directive_validation_error(
                "Fields that are marked with @updatedAt must be of type DateTime.",
                "updatedAt",
                Span::new(text.find("@updatedAt").unwrap() + 1, text.find("@updatedAt").unwrap() + 10),
            ),
            ValidationError::new_directive_validation_error(
                "Fields that are marked with @updatedAt can not be lists.",
                "updatedAt",
                Span::new(
                    text.find("[] @updatedAt").unwrap() + 4,
                    text.find("[] @updatedAt").unwrap() + 13
                ),
            ),
        ]
    );
}

#[test]
fn relation_reads_name_references_and_deletion() {
    let datamodel = parse(
        r#"
        model A {
            id Int @id
            b B @relation(name: "Owner", references: [id, code], onDelete: CASCADE)
            c B @relation("Other")
        }
        model B {
            id Int @id
            code String
            as A[] @relation(name: "Owner")
            cs A[] @relation(name: "Other", onDelete: NONE)
        }
        "#,
    );
    assert_eq!(
        field(&datamodel, "A", "b").field_type,
        dml::FieldType::Relation(dml::RelationInfo {
            to: "B".to_string(),
            to_fields: vec!["id".to_string(), "code".to_string()],
            name: "Owner".to_string(),
            on_delete: dml::OnDeleteStrategy::Cascade,
        })
    );
    assert_eq!(
        field(&datamodel, "A", "c").field_type,
        dml::FieldType::Relation(dml::RelationInfo {
            to: "B".to_string(),
            to_fields: vec![],
            name: "Other".to_string(),
            on_delete: dml::OnDeleteStrategy::NoAction,
        })
    );
}

#[test]
fn relation_comes_back_after_it_was_applied() {
    let texts = vec![
        "model A { b B @relation(name: \"Owner\", references: [id, code], onDelete: CASCADE) }",
        "model A { b B @relation(\"Owner\") }",
        "model A { b B @relation(references: id) }",
    ];
    let validator = RelationDirectiveValidator {};
    for text in texts {
        let original = directive_of(text);
        let bare = || dml::Field::new("b", dml::FieldType::Relation(dml::RelationInfo::new("B")));
        let mut field = bare();
        validator
            .validate_and_apply(&mut Args::new(&original.arguments, original.span), &mut field)
            .unwrap();
        let written = validator.serialize(&field, &dml::Datamodel::new()).unwrap().unwrap();
        assert_eq!(written.name, "relation");
        let mut again = bare();
        validator
            .validate_and_apply(&mut Args::new(&written.arguments, written.span), &mut again)
            .unwrap();
        assert_eq!(again, field);
    }
    let nothing = directive_of("model A { b B @relation() }");
    let mut field = dml::Field::new("b", dml::FieldType::Relation(dml::RelationInfo::new("B")));
    validator
        .validate_and_apply(&mut Args::new(&nothing.arguments, nothing.span), &mut field)
        .unwrap();
    assert_eq!(validator.serialize(&field, &dml::Datamodel::new()), Ok(None));
}

#[test]
fn relation_is_for_fields_that_refer_to_models() {
    let text = "model A { id Int @id f String @relation(name: \"x\") }";
    assert_eq!(
        parse_errors(text),
        vec![ValidationError::new_directive_validation_error(
            "Invalid field type, not a relation.",
            "relation",
            span_of(text, "relation(name: \"x\")"),
        )]
    );
    let text = "model A { id Int @id b B @relation(references: [3]) c B @relation(onDelete: MAYBE) d B @relation(onDelete: \"CASCADE\") } model B { id Int @id }";
    assert_eq!(
        parse_errors(text),
        vec![
            ValidationError::new_directive_validation_error(
                "Expected a list of field names.",
                "relation",
                span_of(text, "[3]"),
            ),
            ValidationError::new_directive_validation_error(
                "Expected CASCADE or NONE.",
                "relation",
                span_of(text, "MAYBE"),
            ),
            ValidationError::new_directive_validation_error(
                "Expected a constant literal.",
                "relation",
                span_of(text, "\"CASCADE\""),
            ),
        ]
    );
}

#[test]
fn relations_without_a_name_are_named_after_their_models() {
    assert_eq!(
        datamodel::validator::standardise::relation_name("Blog", "Post"),
        "BlogToPost"
    );
    assert_eq!(
        datamodel::validator::standardise::relation_name("Post", "Blog"),
        "BlogToPost"
    );
    assert_eq!(
        datamodel::validator::standardise::relation_name("User", "User"),
        "UserToUser"
    );
    assert_eq!(datamodel::validator::standardise::relation_name("ab", "a"), "aToab");
    assert_eq!(datamodel::validator::standardise::relation_name("B", "a"), "BToa");
    let datamodel = parse(
        r#"
        model Post { id Int @id blog Blog }
        model Blog { id Int @id posts Post[] }
        "#,
    );
    for (model, name) in vec![("Post", "blog"), ("Blog", "posts")] {
        match &field(&datamodel, model, name).field_type {
            dml::FieldType::Relation(info) => assert_eq!(info.name, "BlogToPost"),
            other => panic!("{:?} is no relation", other),
        }
    }
}

#[test]
fn fields_that_lead_back_are_added_where_they_are_missing() {
    let datamodel = parse(
        r#"
        model Blog { id Int @id posts Post[] authors Author[] @relation(name: "Writers") }
        model Post { id Int @id }
        model Author { id Int @id }
        "#,
    );
    let post = datamodel.find_model("Post").unwrap();
    assert_eq!(post.fields.len(), 2);
    let mut expected = dml::Field::new(
        "blog",
        dml::FieldType::Relation(dml::RelationInfo {
            to: "Blog".to_string(),
            to_fields: vec![],
            name: "BlogToPost".to_string(),
            on_delete: dml::OnDeleteStrategy::NoAction,
        }),
    );
    expected.arity = dml::FieldArity::Optional;
    expected.is_generated = true;
    assert_eq!(post.fields[1], expected);
    let author = datamodel.find_model("Author").unwrap();
    match &author.fields[1].field_type {
        dml::FieldType::Relation(info) => {
            assert_eq!(info.name, "Writers");
            assert_eq!(info.to, "Blog");
        }
        other => panic!("{:?} is no relation", other),
    }
    assert_eq!(datamodel.find_model("Blog").unwrap().fields.len(), 3);
}

#[test]
fn unique_on_a_model_lists_fields_of_the_model() {
    let text = r#"
        model A {
            id Int @id
            first String
            last String @map(name: "family")
            @@unique([first, last])
            @@unique(fields: [last])
        }
    "#;
    let datamodel = parse(text);
    let model = datamodel.find_model("A").unwrap();
    assert_eq!(
        model.unique_criteria,
        vec![
            vec!["first".to_string(), "last".to_string()],
            vec!["last".to_string()]
        ]
    );
    let written = ModelUniqueDirectiveValidator {}.serialize(model, &datamodel).unwrap().unwrap();
    assert_eq!(written.name, "unique");
    assert_eq!(written.arguments.len(), 1);
    assert_eq!(written.arguments[0].name, "fields");
    assert_eq!(
        written.arguments[0].value,
        ast::Value::Array(
            vec![ast::Value::ConstantValue("last".to_string(), Span::empty())],
            Span::empty()
        )
    );
    let mut again = dml::Model::new("A");
    again.add_field(dml::Field::new("last", dml::FieldType::Base(dml::ScalarType::String)));
    ModelUniqueDirectiveValidator {}
        .validate_and_apply(&mut Args::new(&written.arguments, written.span), &mut again)
        .unwrap();
    assert_eq!(again.unique_criteria, vec![vec!["last".to_string()]]);
    assert_eq!(
        ModelUniqueDirectiveValidator {}.serialize(&dml::Model::new("B"), &datamodel),
        Ok(None)
    );
    let schema =
        datamodel::migration::calculate::DatabaseSchemaCalculator::calculate(&datamodel).unwrap();
    let indexes = &schema.table_bang("A").indexes;
    assert_eq!(indexes.len(), 2);
    assert_eq!(indexes[0].name, "A.first_family._UNIQUE");
    assert_eq!(indexes[0].columns, vec!["first", "family"]);
    assert_eq!(indexes[1].name, "A.family._UNIQUE");
    assert_eq!(indexes[1].columns, vec!["family"]);
}

#[test]
fn unique_on_a_model_refuses_what_is_no_field() {
    let text = "model A { id Int @id @@unique([id, other]) @@unique([]) @@unique(\"id\") @@unique() }";
    assert_eq!(
        parse_errors(text),
        vec![
            ValidationError::new_directive_validation_error(
                "A unique criterion names fields of the model it stands on only.",
                "unique",
                span_of(text, "[id, other]"),
            ),
            ValidationError::new_directive_validation_error(
                "A unique criterion names at least one field.",
                "unique",
                span_of(text, "[]"),
            ),
            ValidationError::new_directive_validation_error(
                "Expected a list of field names.",
                "unique",
                span_of(text, "\"id\""),
            ),
            ValidationError::new_directive_validation_error(
                "Argument \"fields\" is missing.",
                "unique",
                span_of(text, "unique()"),
            ),
        ]
    );
}

#[test]
fn a_type_alias_stands_for_its_type_and_directives() {
    let datamodel = parse(
        r#"
        type Id = String @id @default(cuid())
        type Name = String @unique
        model A {
            id Id
            name Name? @map(name: "title")
            plain String
        }
        "#,
    );
    let id = field(&datamodel, "A", "id");
    assert_eq!(id.field_type, dml::FieldType::Base(dml::ScalarType::String));
    assert!(id.is_id);
    assert_eq!(
        id.default_value,
        Some(dml::Value::Expression("cuid".to_string(), dml::ScalarType::String, vec![]))
    );
    let name = field(&datamodel, "A", "name");
    assert_eq!(name.field_type, dml::FieldType::Base(dml::ScalarType::String));
    assert_eq!(name.arity, dml::FieldArity::Optional);
    assert!(name.is_unique && !name.is_id);
    assert_eq!(name.database_name, Some("title".to_string()));
    assert!(!field(&datamodel, "A", "plain").is_unique);
    let text = "type Wrong = Int @default(\"x\") model A { id Int @id w Wrong @bogus }";
    assert_eq!(
        parse_errors(text),
        vec![
            ValidationError::new_directive_validation_error(
                "The default value does not fit the type of the field.",
                "default",
                span_of(text, "\"x\""),
            ),
            ValidationError::new_directive_validation_error(
                "Encountered unknown directive.",
                "bogus",
                span_of(text, "bogus"),
            ),
        ]
    );
    let text = "type Other = Post model A { id Int @id o Other }";
    assert_eq!(
        parse_errors(text),
        vec![ValidationError::new_field_validation_error(
            "Type \"Other\" is neither a built-in type, nor refers to another model, custom type, or enum.",
            "A",
            "o",
            Span::new(text.rfind("Other").unwrap(), text.rfind("Other").unwrap() + 5),
        )]
    );
}
