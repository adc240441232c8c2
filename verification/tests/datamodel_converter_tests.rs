#![allow(non_snake_case)]
use datamodel::convert::DatamodelConverter;
use datamodel::idm::{
    FieldBehaviour, FieldManifestation, IdStrategy, InlineRelation, InternalDataModel,
    InternalEnum, Model, Relation, RelationField, RelationLinkManifestation, RelationSide,
    RelationTable, ScalarField, ScalarListStrategy, TypeIdentifier,
};

#[test]
fn an_empty_datamodel_must_work() {
    let datamodel = convert("");
    assert_eq!(datamodel.enums.is_empty(), true);
    assert_eq!(datamodel.models().is_empty(), true);
    assert_eq!(datamodel.relations().is_empty(), true);
}

#[test]
fn converting_enums() {
    let datamodel = convert(
        r#"
            model MyModel {
                id Int @id
                field MyEnum
            }

            enum MyEnum {
                A
                B
                C
            }
        "#,
    );
    let expected_values = vec!["A".to_string(), "B".to_string(), "C".to_string()];
    let enm = datamodel.enums.iter().find(|e| e.name == "MyEnum").unwrap();
    assert_eq!(enm.values, vec!["A".to_string(), "B".to_string(), "C".to_string()]);

    let model = datamodel.assert_model("MyModel");
    let field = model.assert_scalar_field("field");
    assert_eq!(field.type_identifier, TypeIdentifier::Enum);
    assert_eq!(
        field.internal_enum,
        Some(InternalEnum {
            name: "MyEnum".to_string(),
            values: expected_values
        })
    );
}

#[test]
fn models_with_only_scalar_fields() {
    let datamodel = convert(
        r#"
            model Test {
                id Int @id
                int Int
                float Float
                boolean Boolean
                dateTime DateTime
                stringOpt String?
                intList Int[]
            }
        "#,
    );

    let model = datamodel.assert_model("Test");
    model
        .assert_scalar_field("id")
        .assert_type_identifier(TypeIdentifier::Int)
        .assert_behaviour(FieldBehaviour::Id {
            strategy: IdStrategy::Auto,
            sequence: None,
        })
        .assert_is_auto_generated_by_db();
    model
        .assert_scalar_field("int")
        .assert_type_identifier(TypeIdentifier::Int)
        .assert_no_behaviour();
    model
        .assert_scalar_field("float")
        .assert_type_identifier(TypeIdentifier::Float)
        .assert_no_behaviour();
    model
        .assert_scalar_field("boolean")
        .assert_type_identifier(TypeIdentifier::Boolean)
        .assert_no_behaviour();
    model
        .assert_scalar_field("dateTime")
        .assert_type_identifier(TypeIdentifier::DateTime)
        .assert_no_behaviour();
    model
        .assert_scalar_field("stringOpt")
        .assert_type_identifier(TypeIdentifier::String)
        .assert_optional()
        .assert_no_behaviour();
    model
        .assert_scalar_field("intList")
        .assert_type_identifier(TypeIdentifier::Int)
        .assert_list();
}

#[test]
fn db_names_work() {
    let datamodel = convert(
        r#"
            model Test {
                id String @id @default(cuid())
                field String @map(name:"my_column")
            }
        "#,
    );

    let model = datamodel.assert_model("Test");
    let field = model.assert_scalar_field("field");
    assert_eq!(
        field.manifestation,
        Some(FieldManifestation {
            db_name: "my_column".to_string()
        })
    )
}

#[test]
fn scalar_lists_work() {
    let datamodel = convert(
        r#"
            model Test {
                id String @id @default(cuid())
                intList Int[]
            }
        "#,
    );
    let model = datamodel.assert_model("Test");
    model
        .assert_scalar_field("intList")
        .assert_type_identifier(TypeIdentifier::Int)
        .assert_list()
        .assert_behaviour(FieldBehaviour::ScalarList {
            strategy: ScalarListStrategy::Relation,
        });
}

#[test]
fn unique_works() {
    let datamodel = convert(
        r#"
            model Test {
                id String @id @default(cuid())
                unique String @unique
            }
        "#,
    );

    let model = datamodel.assert_model("Test");
    model
        .assert_scalar_field("unique")
        .assert_type_identifier(TypeIdentifier::String)
        .assert_unique();
}

#[test]
fn uuid_fields_must_work() {
    let datamodel = convert(
        r#"
            model Test {
                id String @id @default(uuid())
            }
        "#,
    );

    let model = datamodel.assert_model("Test");
    model
        .assert_scalar_field("id")
        .assert_type_identifier(TypeIdentifier::UUID);
}

#[test]
fn cuid_fields_must_work() {
    let datamodel = convert(
        r#"
            model Test {
                id String @id @default(cuid())
            }
        "#,
    );

    let model = datamodel.assert_model("Test");
    model
        .assert_scalar_field("id")
        .assert_type_identifier(TypeIdentifier::GraphQLID);
}

#[test]
fn createdAt_works() {
    let datamodel = convert(
        r#"
            model Test {
                id String @id @default(cuid())
                createdAt DateTime @default(now())
            }
        "#,
    );

    let model = datamodel.assert_model("Test");
    model
        .assert_scalar_field("createdAt")
        .assert_type_identifier(TypeIdentifier::DateTime)
        .assert_created_at();
}

#[test]
fn updatedAt_works() {
    let datamodel = convert(
        r#"
            model Test {
                id String @id @default(cuid())
                updatedAt DateTime @updatedAt
            }
        "#,
    );

    let model = datamodel.assert_model("Test");
    model
        .assert_scalar_field("updatedAt")
        .assert_type_identifier(TypeIdentifier::DateTime)
        .assert_updated_at();
}

#[test]
fn explicit_relation_fields() {
    let datamodel = convert(
        r#"
            model Blog {
                id Int @id
                posts Post[]
            }

            model Post {
                id Int @id
                blog Blog? @map(name:"blog_id")
            }
        "#,
    );

    let relation_name = "BlogToPost";
    let blog = datamodel.assert_model("Blog");
    let post = datamodel.assert_model("Post");
    let relation = datamodel.assert_relation(relation_name);

    blog.assert_relation_field("posts")
        .assert_list()
        .assert_optional()
        .assert_relation_name(relation_name)
        .assert_side(RelationSide::A);

    post.assert_relation_field("blog")
        .assert_optional()
        .assert_relation_name(relation_name)
        .assert_side(RelationSide::B);

    relation
        .assert_name(relation_name)
        .assert_model_a("Blog")
        .assert_model_b("Post")
        .assert_manifestation(RelationLinkManifestation::Inline(InlineRelation {
            in_table_of_model_name: "Post".to_string(),
            referencing_column: "blog_id".to_string(),
        }));
}

#[test]
fn many_to_many_relations() {
    let datamodel = convert(
        r#"
            model Post {
                id Int @id
                blogs Blog[]
            }

            model Blog {
                id Int @id
                posts Post[]
            }
        "#,
    );

    let relation_name = "BlogToPost";
    let blog = datamodel.assert_model("Blog");
    let post = datamodel.assert_model("Post");
    let relation = datamodel.assert_relation(relation_name);

    blog.assert_relation_field("posts")
        .assert_list()
        .assert_optional()
        .assert_relation_name(relation_name)
        .assert_side(RelationSide::A);

    post.assert_relation_field("blogs")
        .assert_list()
        .assert_optional()
        .assert_relation_name(relation_name)
        .assert_side(RelationSide::B);

    relation
        .assert_name(relation_name)
        .assert_model_a("Blog")
        .assert_model_b("Post")
        .assert_manifestation(RelationLinkManifestation::RelationTable(RelationTable {
            table: format!("_{}", relation_name),
            model_a_column: "A".to_string(),
            model_b_column: "B".to_string(),
            id_column: None,
        }));
}

#[test]
fn implicit_relation_fields() {
    let datamodel = convert(
        r#"
            model Blog {
                id Int @id
                posts Post[]
            }

            model Post {
                id Int @id
            }
        "#,
    );

    let relation_name = "BlogToPost";
    let post = datamodel.assert_model("Post");
    let relation = datamodel.assert_relation(relation_name);

    post.assert_relation_field("blog").assert_optional();

    relation
        .assert_name(relation_name)
        .assert_model_a("Blog")
        .assert_model_b("Post")
        .assert_manifestation(RelationLinkManifestation::Inline(InlineRelation {
            in_table_of_model_name: "Post".to_string(),
            referencing_column: "blog".to_string(),
        }));
}

#[test]
fn explicit_relation_names() {
    let datamodel = convert(
        r#"
            model Blog {
                id Int @id
                posts Post[] @relation(name: "MyRelationName")
            }

            model Post {
                id Int @id
                blog Blog? @relation(name: "MyRelationName")
            }
        "#,
    );

    let blog = datamodel.assert_model("Blog");
    let post = datamodel.assert_model("Post");

    let relation_name = "MyRelationName";
    blog.assert_relation_field("posts")
        .assert_list()
        .assert_optional()
        .assert_relation_name(relation_name);
    post.assert_relation_field("blog")
        .assert_optional()
        .assert_relation_name(relation_name);
}

#[test]
fn ambiguous_relations() {
    let datamodel = convert(
        r#"
            model Blog {
                id    Int  @id
                post1 Post @relation(name: "Relation1")
                post2 Post @relation(name: "Relation2")
            }
            
            model Post {
                id    Int  @id
                blog1 Blog @relation(name: "Relation1")
                blog2 Blog @relation(name: "Relation2")
            }
        "#,
    );

    let blog = datamodel.assert_model("Blog");
    blog.assert_relation_field("post1").assert_relation_name("Relation1");
    blog.assert_relation_field("post2").assert_relation_name("Relation2");

    let post = datamodel.assert_model("Post");
    post.assert_relation_field("blog1").assert_relation_name("Relation1");
    post.assert_relation_field("blog2").assert_relation_name("Relation2");
}

#[test]
fn a_relation_of_a_model_to_itself_is_stored_with_the_later_field() {
    let datamodel = convert(
        r#"
            model Group {
                id    String  @default(cuid()) @id
                parent Group? @relation(name: "ChildGroups")
                childGroups Group[] @relation(name: "ChildGroups")
            }
        "#,
    );
    let group = datamodel.assert_model("Group");
    group.assert_relation_field("childGroups").assert_side(RelationSide::A);
    group.assert_relation_field("parent").assert_side(RelationSide::B);
    datamodel
        .assert_relation("ChildGroups")
        .assert_model_a("Group")
        .assert_model_b("Group")
        .assert_manifestation(RelationLinkManifestation::Inline(InlineRelation {
            in_table_of_model_name: "Group".to_string(),
            referencing_column: "parent".to_string(),
        }));
}

#[test]
fn of_two_single_endpoints_the_one_with_references_holds_the_column() {
    let datamodel = convert(
        r#"
            model A {
                id Int @id
                b B @relation(references: [id]) @map(name: "b_column")
            }

            model B {
                id Int @id
                a A
            }
        "#,
    );
    datamodel
        .assert_relation("AToB")
        .assert_manifestation(RelationLinkManifestation::Inline(InlineRelation {
            in_table_of_model_name: "A".to_string(),
            referencing_column: "b_column".to_string(),
        }));
    let moved = convert(
        r#"
            model A {
                id Int @id
                b B
            }

            model B {
                id Int @id
                a A
            }
        "#,
    );
    moved
        .assert_relation("AToB")
        .assert_manifestation(RelationLinkManifestation::Inline(InlineRelation {
            in_table_of_model_name: "B".to_string(),
            referencing_column: "a".to_string(),
        }));
}

#[test]
fn a_datamodel_without_the_second_endpoint_is_not_converted() {
    let mut schema = datamodel::dml::Datamodel::new();
    let mut a = datamodel::dml::Model::new("A");
    a.add_field(datamodel::dml::Field::new(
        "b",
        datamodel::dml::FieldType::Relation(datamodel::dml::RelationInfo::new("B")),
    ));
    schema.add_model(a);
    schema.add_model(datamodel::dml::Model::new("B"));
    assert_eq!(
        DatamodelConverter::convert(&schema),
        Err(datamodel::errors::ValidationError::new_state_error(
            "The datamodel refers to an enum, a model or a second endpoint of a relation that it does not hold."
        ))
    );
}

fn convert(datamodel: &str) -> InternalDataModel {
    let datamodel = datamodel::parse(datamodel).unwrap();
    DatamodelConverter::convert(&datamodel).unwrap()
}

trait DatamodelAssertions {
    fn assert_model(&self, name: &str) -> &Model;
    fn assert_relation(&self, name: &str) -> &Relation;
}

impl DatamodelAssertions for InternalDataModel {
    fn assert_model(&self, name: &str) -> &Model {
        self.find_model(name).unwrap()
    }

    fn assert_relation(&self, name: &str) -> &Relation {
        self.find_relation(name).unwrap()
    }
}

trait ModelAssertions {
    fn assert_scalar_field(&self, name: &str) -> &ScalarField;
    fn assert_relation_field(&self, name: &str) -> &RelationField;
}

impl ModelAssertions for Model {
    fn assert_scalar_field(&self, name: &str) -> &ScalarField {
        self.find_scalar_field(name).unwrap()
    }

    fn assert_relation_field(&self, name: &str) -> &RelationField {
        self.find_relation_field(name).unwrap()
    }
}

trait FieldAssertions {
    fn assert_type_identifier(&self, ti: TypeIdentifier) -> &Self;
    fn assert_optional(&self) -> &Self;
    fn assert_list(&self) -> &Self;
    fn assert_unique(&self) -> &Self;
}

trait ScalarFieldAssertions {
    fn assert_updated_at(&self) -> &Self;
    fn assert_created_at(&self) -> &Self;
    fn assert_behaviour(&self, behaviour: FieldBehaviour) -> &Self;
    fn assert_no_behaviour(&self) -> &Self;
    fn assert_is_auto_generated_by_db(&self) -> &Self;
}

trait RelationFieldAssertions {
    fn assert_relation_name(&self, name: &str) -> &Self;
    fn assert_side(&self, side: RelationSide) -> &Self;
}

impl FieldAssertions for ScalarField {
    fn assert_type_identifier(&self, ti: TypeIdentifier) -> &Self {
        assert_eq!(self.type_identifier, ti);
        self
    }

    fn assert_optional(&self) -> &Self {
        assert!(!self.is_required);
        self
    }

    fn assert_list(&self) -> &Self {
        assert!(self.is_list);
        self
    }

    fn assert_unique(&self) -> &Self {
        assert!(self.is_unique);
        self
    }
}

impl ScalarFieldAssertions for ScalarField {
    fn assert_created_at(&self) -> &Self {
        self.assert_behaviour(FieldBehaviour::CreatedAt);
        self
    }

    fn assert_updated_at(&self) -> &Self {
        self.assert_behaviour(FieldBehaviour::UpdatedAt);
        self
    }

    fn assert_behaviour(&self, behaviour: FieldBehaviour) -> &Self {
        assert_eq!(self.behaviour, Some(behaviour));
        self
    }

    fn assert_no_behaviour(&self) -> &Self {
        assert!(self.behaviour.is_none());
        self
    }

    fn assert_is_auto_generated_by_db(&self) -> &Self {
        assert!(self.is_auto_generated);
        self
    }
}

impl FieldAssertions for RelationField {
    fn assert_type_identifier(&self, ti: TypeIdentifier) -> &Self {
        assert_eq!(self.type_identifier, ti);
        self
    }

    fn assert_optional(&self) -> &Self {
        assert!(!self.is_required);
        self
    }

    fn assert_list(&self) -> &Self {
        assert!(self.is_list);
        self
    }

    fn assert_unique(&self) -> &Self {
        assert!(self.is_unique);
        self
    }
}

impl RelationFieldAssertions for RelationField {
    fn assert_relation_name(&self, name: &str) -> &Self {
        assert_eq!(self.relation_name, name);
        self
    }

    fn assert_side(&self, side: RelationSide) -> &Self {
        assert_eq!(self.relation_side, side);
        self
    }
}

trait RelationAssertions {
    fn assert_name(&self, name: &str) -> &Self;
    fn assert_model_a(&self, name: &str) -> &Self;
    fn assert_model_b(&self, name: &str) -> &Self;
    fn assert_manifestation(&self, mani: RelationLinkManifestation) -> &Self;
}

impl RelationAssertions for Relation {
    fn assert_name(&self, name: &str) -> &Self {
        assert_eq!(self.name, name);
        self
    }
    fn assert_model_a(&self, name: &str) -> &Self {
        assert_eq!(self.model_a_name, name);
        self
    }
    fn assert_model_b(&self, name: &str) -> &Self {
        assert_eq!(self.model_b_name, name);
        self
    }
    fn assert_manifestation(&self, manifestation: RelationLinkManifestation) -> &Self {
        assert_eq!(self.manifestation, Some(manifestation));
        self
    }
}

#[test]
fn the_reference_of_an_embedded_model_stands_where_the_rules_put_it() {
    // The embedded model alone refers to fields of the other model, so it
    // holds the column.
    let single = convert(
        r#"
            model Parent { id Int @id child Child }
            model Child @@embedded { id Int @id parent Parent @relation(references: [id]) }
        "#,
    );
    single
        .assert_relation("ChildToParent")
        .assert_manifestation(RelationLinkManifestation::Inline(InlineRelation {
            in_table_of_model_name: "Child".to_string(),
            referencing_column: "parent".to_string(),
        }));
    // A list in the embedded model holds no column.
    let list = convert(
        r#"
            model Parent { id Int @id child Child }
            model Child @@embedded { id Int @id parents Parent[] @relation(references: [id]) }
        "#,
    );
    list.assert_relation("ChildToParent")
        .assert_manifestation(RelationLinkManifestation::Inline(InlineRelation {
            in_table_of_model_name: "Parent".to_string(),
            referencing_column: "child".to_string(),
        }));
    // Where both sides refer to fields, the side that stands later holds
    // the column.
    let both = convert(
        r#"
            model Parent { id Int @id child Child @relation(references: [id]) }
            model Child @@embedded { id Int @id parent Parent @relation(references: [id]) }
        "#,
    );
    both.assert_relation("ChildToParent")
        .assert_manifestation(RelationLinkManifestation::Inline(InlineRelation {
            in_table_of_model_name: "Parent".to_string(),
            referencing_column: "child".to_string(),
        }));
    assert!(single.assert_model("Child").is_embedded);
}

#[test]
fn relations_come_in_the_order_of_their_names() {
    let datamodel = convert(
        r#"
            model User {
                id Int @id
                posts Post[] @relation(name: "Written")
                likes Post[] @relation(name: "Liked")
                friends User[] @relation(name: "Friends")
                friendOf User[] @relation(name: "Friends")
            }
            model Post {
                id Int @id
                author User @relation(name: "Written")
                fans User[] @relation(name: "Liked")
                blog Blog
            }
            model Blog {
                id Int @id
                posts Post[]
            }
        "#,
    );
    let names: Vec<&str> = datamodel.relations().iter().map(|r| r.name.as_str()).collect();
    assert_eq!(names, vec!["BlogToPost", "Friends", "Liked", "Written"]);
    let schema = datamodel::migration::calculate::DatabaseSchemaCalculator::calculate(
        &datamodel::parse(
            r#"
            model A { id Int @id cs C[] @relation(name: "z") bs B[] @relation(name: "a") }
            model B { id Int @id as A[] @relation(name: "a") }
            model C { id Int @id as A[] @relation(name: "z") }
        "#,
        )
        .unwrap(),
    )
    .unwrap();
    let tables: Vec<&str> = schema.tables.iter().map(|t| t.name.as_str()).collect();
    assert_eq!(tables, vec!["A", "B", "C", "_a", "_z"]);
}
