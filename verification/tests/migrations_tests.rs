#![allow(non_snake_case)]
#![allow(unused)]
use datamodel::dml;
use datamodel::migration::infer::infer;
use datamodel::migration::render::{quote, render, SqlFamily};
use datamodel::migration::steps::MigrationStep;
use datamodel::migration::support::{apply_supported, supports};
use datamodel::migration::schema::{
    Column, ColumnType, DatabaseSchema, ForeignKey, IndexType, OnDelete, Table,
};

/// A database of one family, as far as its schema goes, and the datamodel
/// that it was last migrated to.
struct Api {
    family: SqlFamily,
    datamodel: Option<dml::Datamodel>,
    schema: DatabaseSchema,
}

fn test_each_connector<F>(test_fn: F)
where
    F: Fn(SqlFamily, &mut Api),
{
    test_each_connector_with_ignores(Vec::new(), test_fn);
}

fn test_each_connector_with_ignores<F>(ignores: Vec<SqlFamily>, test_fn: F)
where
    F: Fn(SqlFamily, &mut Api),
{
    for family in vec![SqlFamily::Postgres, SqlFamily::Mysql, SqlFamily::Sqlite] {
        if ignores.contains(&family) {
            continue;
        }
        let mut api = Api {
            family,
            datamodel: None,
            schema: DatabaseSchema::empty(),
        };
        test_fn(family, &mut api);
    }
}

fn infer_and_apply(api: &mut Api, datamodel: &str) -> DatabaseSchema {
    let next = datamodel::parse(datamodel).unwrap();
    let steps = infer(api.datamodel.as_ref(), &next).unwrap();
    let statements = render(api.family, &steps);
    assert!(statements.len() >= steps.len());
    assert_eq!(apply_supported(api.family, &mut api.schema, &steps), None);
    api.datamodel = Some(next);
    api.schema.clone()
}

#[test]
fn adding_a_scalar_field_must_work() {
    test_each_connector(|_, api| {
        let dm2 = r#"
            model Test {
                id String @id @default(cuid())
                int Int
                float Float
                boolean Boolean
                string String
                dateTime DateTime
                enum MyEnum
            }

            enum MyEnum {
                A
                B
            }
        "#;
        let result = infer_and_apply(api, dm2);
        let table = result.table_bang("Test");
        table.columns.iter().for_each(|c| assert_eq!(c.is_required, true));

        assert_eq!(table.column_bang("int").tpe, ColumnType::Int);
        assert_eq!(table.column_bang("float").tpe, ColumnType::Float);
        assert_eq!(table.column_bang("boolean").tpe, ColumnType::Boolean);
        assert_eq!(table.column_bang("string").tpe, ColumnType::String);
        assert_eq!(table.column_bang("dateTime").tpe, ColumnType::DateTime);
        assert_eq!(table.column_bang("enum").tpe, ColumnType::String);
    });
}


#[test]
fn adding_an_optional_field_must_work() {
    test_each_connector(|_, api| {
        let dm2 = r#"
            model Test {
                id String @id @default(cuid())
                field String?
            }
        "#;
        let result = infer_and_apply(api, dm2);
        let column = result.table_bang("Test").column_bang("field");
        assert_eq!(column.is_required, false);
    });
}

#[test]
fn adding_an_id_field_with_a_special_name_must_work() {
    test_each_connector(|_, api| {
        let dm2 = r#"
            model Test {
                specialName String @id @default(cuid())
            }
        "#;
        let result = infer_and_apply(api, dm2);
        let column = result.table_bang("Test").column("specialName");
        assert_eq!(column.is_some(), true);
    });
}

#[test]
fn removing_a_scalar_field_must_work() {
    test_each_connector(|_, api| {
        let dm1 = r#"
            model Test {
                id String @id @default(cuid())
                field String
            }
        "#;
        let result = infer_and_apply(api, dm1);
        let column1 = result.table_bang("Test").column("field");
        assert_eq!(column1.is_some(), true);

        let dm2 = r#"
            model Test {
                id String @id @default(cuid())
            }
        "#;
        let result = infer_and_apply(api, dm2);
        let column2 = result.table_bang("Test").column("field");
        assert_eq!(column2.is_some(), false);
    });
}

#[test]
fn can_handle_reserved_sql_keywords_for_model_name() {
    test_each_connector(|_, api| {
        let dm1 = r#"
            model Group {
                id String @id @default(cuid())
                field String
            }
        "#;
        let result = infer_and_apply(api, dm1);
        let column = result.table_bang("Group").column_bang("field");
        assert_eq!(column.tpe, ColumnType::String);

        let dm2 = r#"
            model Group {
                id String @id @default(cuid())
                field Int
            }
        "#;
        let result = infer_and_apply(api, dm2);
        let column = result.table_bang("Group").column_bang("field");
        assert_eq!(column.tpe, ColumnType::Int);
    });
}

#[test]
fn can_handle_reserved_sql_keywords_for_field_name() {
    test_each_connector(|_, api| {
        let dm1 = r#"
            model Test {
                id String @id @default(cuid())
                Group String
            }
        "#;
        let result = infer_and_apply(api, dm1);
        let column = result.table_bang("Test").column_bang("Group");
        assert_eq!(column.tpe, ColumnType::String);

        let dm2 = r#"
            model Test {
                id String @id @default(cuid())
                Group Int
            }
        "#;
        let result = infer_and_apply(api, dm2);
        let column = result.table_bang("Test").column_bang("Group");
        assert_eq!(column.tpe, ColumnType::Int);
    });
}

#[test]
fn update_type_of_scalar_field_must_work() {
    test_each_connector(|_, api| {
        let dm1 = r#"
            model Test {
                id String @id @default(cuid())
                field String
            }
        "#;
        let result = infer_and_apply(api, dm1);
        let column1 = result.table_bang("Test").column_bang("field");
        assert_eq!(column1.tpe, ColumnType::String);

        let dm2 = r#"
            model Test {
                id String @id @default(cuid())
                field Int
            }
        "#;
        let result = infer_and_apply(api, dm2);
        let column2 = result.table_bang("Test").column_bang("field");
        assert_eq!(column2.tpe, ColumnType::Int);
    });
}

#[test]
fn changing_the_type_of_an_id_field_must_work() {
    test_each_connector(|_, api| {
        let dm1 = r#"
            model A {
                id Int @id
                b  B   @relation(references: [id])
            }
            model B {
                id Int @id
            }
        "#;
        let result = infer_and_apply(api, dm1);
        let column = result.table_bang("A").column_bang("b");
        assert_eq!(column.tpe, ColumnType::Int);
        assert_eq!(
            column.foreign_key,
            Some(ForeignKey::new("B".to_string(), "id".to_string(), OnDelete::NoAction))
        );

        let dm2 = r#"
            model A {
                id Int @id
                b  B   @relation(references: [id])
            }
            model B {
                id String @id @default(cuid())
            }
        "#;
        let result = infer_and_apply(api, dm2);
        let column = result.table_bang("A").column_bang("b");
        assert_eq!(column.tpe, ColumnType::String);
        assert_eq!(
            column.foreign_key,
            Some(ForeignKey::new("B".to_string(), "id".to_string(), OnDelete::NoAction))
        );
    });
}

#[test]
fn updating_db_name_of_a_scalar_field_must_work() {
    test_each_connector(|_, api| {
        let dm1 = r#"
            model A {
                id String @id @default(cuid())
                field String @map(name:"name1")
            }
        "#;
        let result = infer_and_apply(api, dm1);
        assert_eq!(result.table_bang("A").column("name1").is_some(), true);

        let dm2 = r#"
            model A {
                id String @id @default(cuid())
                field String @map(name:"name2")
            }
        "#;
        let result = infer_and_apply(api, dm2);
        assert_eq!(result.table_bang("A").column("name1").is_some(), false);
        assert_eq!(result.table_bang("A").column("name2").is_some(), true);
    });
}

#[test]
fn changing_a_relation_field_to_a_scalar_field_must_work() {
    test_each_connector_with_ignores(vec![SqlFamily::Mysql], |_, api| {
        let dm1 = r#"
            model A {
                id Int @id
                b B @relation(references: [id])
            }
            model B {
                id Int @id
                a A
            }
        "#;
        let result = infer_and_apply(api, dm1);
        let column = result.table_bang("A").column_bang("b");
        assert_eq!(column.foreign_key.is_some(), true);
        assert_eq!(column.tpe, ColumnType::Int);

        let dm2 = r#"
            model A {
                id Int @id
                b String
            }
            model B {
                id Int @id
            }
        "#;
        let result = infer_and_apply(api, dm2);
        let column = result.table_bang("A").column_bang("b");
        assert_eq!(column.foreign_key.is_some(), false);
        assert_eq!(column.tpe, ColumnType::String);
    });
}

#[test]
fn changing_a_scalar_field_to_a_relation_field_must_work() {
    test_each_connector(|_, api| {
        let dm1 = r#"
            model A {
                id Int @id
                b String
            }
            model B {
                id Int @id
            }
        "#;
        let result = infer_and_apply(api, dm1);
        let column = result.table_bang("A").column_bang("b");
        assert_eq!(column.foreign_key.is_some(), false);
        assert_eq!(column.tpe, ColumnType::String);

        let dm2 = r#"
            model A {
                id Int @id
                b B @relation(references: [id])
            }
            model B {
                id Int @id
                a A
            }
        "#;
        let result = infer_and_apply(api, dm2);
        let column = result.table_bang("A").column_bang("b");
        assert_eq!(column.foreign_key.is_some(), true);
        assert_eq!(column.tpe, ColumnType::Int);
    });
}

#[test]
fn adding_a_many_to_many_relation_must_result_in_a_prisma_style_relation_table() {
    test_each_connector(|_, api| {
        let dm1 = r#"
            model A {
                id Int @id
                bs B[]
            }
            model B {
                id Int @id
                as A[]
            }
        "#;
        let result = infer_and_apply(api, dm1);
        let relation_table = result.table_bang("_AToB");
        assert_eq!(relation_table.columns.len(), 2);
        let aColumn = relation_table.column_bang("A");
        assert_eq!(aColumn.tpe, ColumnType::Int);
        assert_eq!(
            aColumn.foreign_key,
            Some(ForeignKey::new("A".to_string(), "id".to_string(), OnDelete::NoAction))
        );
        let bColumn = relation_table.column_bang("B");
        assert_eq!(bColumn.tpe, ColumnType::Int);
        assert_eq!(
            bColumn.foreign_key,
            Some(ForeignKey::new("B".to_string(), "id".to_string(), OnDelete::NoAction))
        );
    });
}

#[test]
fn adding_a_many_to_many_relation_with_custom_name_must_work() {
    test_each_connector(|_, api| {
        let dm1 = r#"
            model A {
                id Int @id
                bs B[] @relation(name: "my_relation")
            }
            model B {
                id Int @id
                as A[] @relation(name: "my_relation")
            }
        "#;

        let result = infer_and_apply(api, dm1);
        let relation_table = result.table_bang("_my_relation");
        assert_eq!(relation_table.columns.len(), 2);

        let aColumn = relation_table.column_bang("A");
        assert_eq!(aColumn.tpe, ColumnType::Int);
        assert_eq!(
            aColumn.foreign_key,
            Some(ForeignKey::new("A".to_string(), "id".to_string(), OnDelete::NoAction))
        );

        let bColumn = relation_table.column_bang("B");
        assert_eq!(bColumn.tpe, ColumnType::Int);
        assert_eq!(
            bColumn.foreign_key,
            Some(ForeignKey::new("B".to_string(), "id".to_string(), OnDelete::NoAction))
        );
    });
}





#[test]
fn adding_an_inline_relation_must_result_in_a_foreign_key_in_the_model_table() {
    test_each_connector(|_, api| {
        let dm1 = r#"
            model A {
                id Int @id
                b B @relation(references: [id])
            }

            model B {
                id Int @id
                a A
            }
        "#;
        let result = infer_and_apply(api, dm1);
        let column = result.table_bang("A").column_bang("b");
        assert_eq!(column.tpe, ColumnType::Int);
        assert_eq!(
            column.foreign_key,
            Some(ForeignKey::new("B".to_string(), "id".to_string(), OnDelete::NoAction))
        );
    });
}

#[test]
fn specifying_a_db_name_for_an_inline_relation_must_work() {
    test_each_connector(|_, api| {
        let dm1 = r#"
            model A {
                id Int @id
                b B @relation(references: [id]) @map(name: "b_column")
            }

            model B {
                id Int @id
                a A
            }
        "#;
        let result = infer_and_apply(api, dm1);
        let column = result.table_bang("A").column_bang("b_column");
        assert_eq!(column.tpe, ColumnType::Int);
        assert_eq!(
            column.foreign_key,
            Some(ForeignKey::new("B".to_string(), "id".to_string(), OnDelete::NoAction))
        );
    });
}

#[test]
fn adding_an_inline_relation_to_a_model_with_an_exotic_id_type() {
    test_each_connector(|_, api| {
        let dm1 = r#"
            model A {
                id Int @id
                b B @relation(references: [id])
            }

            model B {
                id String @id @default(cuid())
                a A
            }
        "#;
        let result = infer_and_apply(api, dm1);
        let column = result.table_bang("A").column_bang("b");
        assert_eq!(column.tpe, ColumnType::String);
        assert_eq!(
            column.foreign_key,
            Some(ForeignKey::new("B".to_string(), "id".to_string(), OnDelete::NoAction))
        );
    });
}

#[test]
fn removing_an_inline_relation_must_work() {
    test_each_connector_with_ignores(vec![SqlFamily::Mysql], |_, api| {
        let dm1 = r#"
            model A {
                id Int @id
                b B @relation(references: [id])
            }

            model B {
                id Int @id
                a A
            }
        "#;
        let result = infer_and_apply(api, dm1);
        let column = result.table_bang("A").column("b");
        assert_eq!(column.is_some(), true);

        let dm2 = r#"
            model A {
                id Int @id
            }

            model B {
                id Int @id
            }
        "#;
        let result = infer_and_apply(api, dm2);
        let column = result.table_bang("A").column("b");
        assert_eq!(column.is_some(), false);
    });
}

#[test]
fn moving_an_inline_relation_to_the_other_side_must_work() {
    test_each_connector_with_ignores(vec![SqlFamily::Mysql], |_, api| {
        let dm1 = r#"
            model A {
                id Int @id
                b B @relation(references: [id])
            }

            model B {
                id Int @id
                a A
            }
        "#;
        let result = infer_and_apply(api, dm1);
        let column = result.table_bang("A").column_bang("b");
        assert_eq!(
            column.foreign_key,
            Some(ForeignKey::new("B".to_string(), "id".to_string(), OnDelete::NoAction))
        );

        let dm2 = r#"
            model A {
                id Int @id
                b B
            }

            model B {
                id Int @id
                a A @relation(references: [id])
            }
        "#;
        let result = infer_and_apply(api, dm2);
        let column = result.table_bang("B").column_bang("a");
        assert_eq!(
            column.foreign_key,
            Some(ForeignKey::new("A".to_string(), "id".to_string(), OnDelete::NoAction))
        );
    });
}

#[test]
fn adding_a_new_unique_field_must_work() {
    test_each_connector(|_, api| {
        let dm1 = r#"
            model A {
                id Int @id
                field String @unique
            }
        "#;
        let result = infer_and_apply(api, dm1);
        let index = result
            .table_bang("A")
            .indexes
            .iter()
            .find(|i| i.columns == vec!["field"]);
    });
}

#[test]
fn removing_an_existing_unique_field_must_work() {
    test_each_connector(|_, api| {
        let dm1 = r#"
            model A {
                id    Int    @id
                field String @unique
            }
        "#;
        let result = infer_and_apply(api, dm1);

        let dm2 = r#"
            model A {
                id    Int    @id
            }
        "#;
        let result = infer_and_apply(api, dm2);
    });
}

#[test]
fn adding_unique_to_an_existing_field_must_work() {
    test_each_connector(|_, api| {
        let dm1 = r#"
            model A {
                id    Int    @id
                field String
            }
        "#;
        let result = infer_and_apply(api, dm1);

        let dm2 = r#"
            model A {
                id    Int    @id
                field String @unique
            }
        "#;
        let result = infer_and_apply(api, dm2);
    });
}

#[test]
fn removing_unique_from_an_existing_field_must_work() {
    test_each_connector(|_, api| {
        let dm1 = r#"
            model A {
                id    Int    @id
                field String @unique
            }
        "#;
        let result = infer_and_apply(api, dm1);

        let dm2 = r#"
            model A {
                id    Int    @id
                field String
            }
        "#;
        let result = infer_and_apply(api, dm2);
    });
}

#[test]
fn adding_a_scalar_list_for_a_modelwith_id_type_int_must_work() {
    test_each_connector(|_, api| {
        let dm1 = r#"
            model A {
                id Int @id
                strings String[]
                enums Status[]
            }
            
            enum Status {
              OK
              ERROR
            }
        "#;
        let result = infer_and_apply(api, dm1);
        let scalar_list_table_for_strings = result.table_bang("A_strings");
        let node_id_column = scalar_list_table_for_strings.column_bang("nodeId");
        assert_eq!(node_id_column.tpe, ColumnType::Int);
        assert_eq!(
            scalar_list_table_for_strings.primary_key_columns,
            vec!["nodeId", "position"]
        );
        let scalar_list_table_for_enums = result.table_bang("A_enums");
        let node_id_column = scalar_list_table_for_enums.column_bang("nodeId");
        assert_eq!(node_id_column.tpe, ColumnType::Int);
        assert_eq!(
            scalar_list_table_for_enums.primary_key_columns,
            vec!["nodeId", "position"]
        );
    });
}

#[test]
fn updating_a_model_with_a_scalar_list_to_a_different_id_type_must_work() {
    test_each_connector_with_ignores(vec![SqlFamily::Mysql], |_, api| {
        let dm = r#"
            model A {
                id Int @id
                strings String[]
            }
        "#;
        let result = infer_and_apply(api, dm);
        let node_id_column = result.table_bang("A_strings").column_bang("nodeId");
        assert_eq!(node_id_column.tpe, ColumnType::Int);

        let dm = r#"
            model A {
                id String @id @default(cuid())
                strings String[]
            }
        "#;
        let result = infer_and_apply(api, dm);
        let node_id_column = result.table_bang("A_strings").column_bang("nodeId");
        assert_eq!(node_id_column.tpe, ColumnType::String);
    });
}

#[test]
fn reserved_sql_key_words_must_work() {
    test_each_connector(|_, api| {
        let dm = r#"
            model Group {
                id    String  @default(cuid()) @id
                parent Group? @relation(name: "ChildGroups")
                childGroups Group[] @relation(name: "ChildGroups")
            }
        "#;
        let result = infer_and_apply(api, dm);

        let relation_column = result.table_bang("Group").column_bang("parent");
        assert_eq!(
            relation_column.foreign_key,
            Some(ForeignKey {
                name: None,
                table: "Group".to_string(),
                column: "id".to_string(),
                on_delete: OnDelete::NoAction,
            })
        )
    });
}

#[test]
fn reserved_words_are_quoted_as_the_family_does() {
    let dm = r#"
        model Group {
            id    String  @default(cuid()) @id
            parent Group? @relation(name: "ChildGroups")
            childGroups Group[] @relation(name: "ChildGroups")
        }
    "#;
    let next = datamodel::parse(dm).unwrap();
    let steps = infer(None, &next).unwrap();
    assert_eq!(
        render(SqlFamily::Postgres, &steps),
        vec![
            "CREATE TABLE \"Group\" (\"id\" TEXT NOT NULL, PRIMARY KEY (\"id\"))".to_string(),
            "ALTER TABLE \"Group\" ADD COLUMN \"parent\" TEXT REFERENCES \"Group\"(\"id\") ON DELETE NO ACTION"
                .to_string(),
        ]
    );
    assert_eq!(
        render(SqlFamily::Mysql, &steps),
        vec![
            "CREATE TABLE `Group` (`id` VARCHAR(191) NOT NULL, PRIMARY KEY (`id`))".to_string(),
            "ALTER TABLE `Group` ADD COLUMN `parent` VARCHAR(191) REFERENCES `Group`(`id`) ON DELETE NO ACTION"
                .to_string(),
        ]
    );
    assert_eq!(
        render(SqlFamily::Sqlite, &steps),
        vec![
            "CREATE TABLE \"Group\" (\"id\" TEXT NOT NULL, PRIMARY KEY (\"id\"))".to_string(),
            "ALTER TABLE \"Group\" ADD COLUMN \"parent\" TEXT REFERENCES \"Group\"(\"id\") ON DELETE NO ACTION"
                .to_string(),
        ]
    );
}

#[test]
fn a_migration_to_the_same_datamodel_has_no_steps() {
    let dm = r#"
        model A {
            id Int @id
            name String @unique
            tags String[]
            bs B[]
            c C @relation(references: [id])
        }
        model B {
            id String @id @default(uuid())
            as A[]
        }
        model C {
            id Int @id
        }
    "#;
    let first = datamodel::parse(dm).unwrap();
    let second = datamodel::parse(dm).unwrap();
    assert!(!infer(None, &first).unwrap().is_empty());
    assert_eq!(infer(Some(&first), &second).unwrap(), Vec::new());
}

#[test]
fn inference_and_rendering_give_the_same_statements_every_time() {
    let dm = r#"
        model A {
            id Int @id
            bs B[]
        }
        model B {
            id Int @id
            as A[]
            created DateTime @default(now())
            flag Boolean
            ratio Float?
        }
    "#;
    let expected = vec![
        "CREATE TABLE \"A\" (\"id\" INTEGER NOT NULL, PRIMARY KEY (\"id\"))".to_string(),
        "CREATE TABLE \"B\" (\"id\" INTEGER NOT NULL, \"created\" TIMESTAMP NOT NULL, \"flag\" BOOLEAN NOT NULL, \"ratio\" DOUBLE PRECISION, PRIMARY KEY (\"id\"))".to_string(),
        "CREATE TABLE \"_AToB\" (\"A\" INTEGER NOT NULL REFERENCES \"A\"(\"id\") ON DELETE NO ACTION, \"B\" INTEGER NOT NULL REFERENCES \"B\"(\"id\") ON DELETE NO ACTION)".to_string(),
    ];
    for _ in 0..3 {
        let next = datamodel::parse(dm).unwrap();
        let steps = infer(None, &next).unwrap();
        assert_eq!(render(SqlFamily::Postgres, &steps), expected);
    }
}

#[test]
fn the_steps_come_in_the_order_of_their_groups() {
    let before = datamodel::parse(
        r#"
        model Old { id Int @id kepts Kept[] @relation(name: "Many") }
        model Kept {
            id Int @id
            gone String
            changed String
            marked String
            olds Old[] @relation(name: "Many")
        }
    "#,
    )
    .unwrap();
    let after = datamodel::parse(
        r#"
        model New { id Int @id items String[] kept Kept @relation(references: [id]) }
        model Kept {
            id Int @id
            changed Int
            marked String @unique
            added Boolean?
        }
    "#,
    )
    .unwrap();
    let steps = infer(Some(&before), &after).unwrap();
    assert_eq!(
        render(SqlFamily::Sqlite, &steps),
        vec![
            "CREATE TABLE \"New\" (\"id\" INTEGER NOT NULL, PRIMARY KEY (\"id\"))",
            "CREATE TABLE \"New_items\" (\"nodeId\" INTEGER NOT NULL REFERENCES \"New\"(\"id\") ON DELETE NO ACTION, \"position\" INTEGER NOT NULL, \"value\" TEXT NOT NULL, PRIMARY KEY (\"nodeId\", \"position\"))",
            "DROP TABLE \"Old\"",
            "ALTER TABLE \"Kept\" ADD COLUMN \"added\" INTEGER",
            "ALTER TABLE \"Kept\" DROP COLUMN \"gone\"",
            "ALTER TABLE \"Kept\" DROP COLUMN \"changed\"",
            "ALTER TABLE \"Kept\" ADD COLUMN \"changed\" INTEGER NOT NULL",
            "CREATE UNIQUE INDEX \"Kept.marked._UNIQUE\" ON \"Kept\" (\"marked\")",
            "ALTER TABLE \"New\" ADD COLUMN \"kept\" INTEGER NOT NULL REFERENCES \"Kept\"(\"id\") ON DELETE NO ACTION",
            "DROP TABLE \"_Many\"",
        ]
    );
}

#[test]
fn names_with_quotes_are_escaped() {
    assert_eq!(quote(SqlFamily::Postgres, "a\"b"), "\"a\"\"b\"");
    assert_eq!(quote(SqlFamily::Mysql, "a`b\"c"), "`a``b\"c`");
    assert_eq!(quote(SqlFamily::Sqlite, ""), "\"\"");
}

#[test]
fn a_datamodel_that_was_not_completed_has_no_migration() {
    let mut schema = dml::Datamodel::new();
    let mut a = dml::Model::new("A");
    a.add_field(dml::Field::new(
        "b",
        dml::FieldType::Relation(dml::RelationInfo::new("B")),
    ));
    schema.add_model(a);
    assert_eq!(
        infer(None, &schema),
        Err(datamodel::errors::ValidationError::new_state_error(
            "The datamodel refers to an enum, a model or a second endpoint of a relation that it does not hold."
        ))
    );
}

#[test]
fn a_column_that_is_mapped_otherwise_is_renamed() {
    let before = datamodel::parse(
        r#"
            model A {
                id String @id @default(cuid())
                field String @map(name:"name1")
                other Int @map(name:"first")
            }
        "#,
    )
    .unwrap();
    let after = datamodel::parse(
        r#"
            model A {
                id String @id @default(cuid())
                field String @map(name:"name2")
                other String @map(name:"second")
            }
        "#,
    )
    .unwrap();
    let steps = infer(Some(&before), &after).unwrap();
    assert_eq!(
        render(SqlFamily::Postgres, &steps),
        vec![
            "ALTER TABLE \"A\" RENAME COLUMN \"name1\" TO \"name2\"",
            "ALTER TABLE \"A\" RENAME COLUMN \"first\" TO \"second\"",
            "ALTER TABLE \"A\" DROP COLUMN \"second\"",
            "ALTER TABLE \"A\" ADD COLUMN \"second\" TEXT NOT NULL",
        ]
    );
    let mut schema = datamodel::migration::calculate::DatabaseSchemaCalculator::calculate(&before).unwrap();
    schema.apply_all(&steps);
    let table = schema.table_bang("A");
    assert_eq!(table.column("name1").is_some(), false);
    assert_eq!(table.column_bang("name2").tpe, ColumnType::String);
    assert_eq!(table.column_bang("second").tpe, ColumnType::String);
    assert_eq!(table.columns.len(), 3);
}

#[test]
fn a_relation_that_is_called_otherwise_keeps_its_table() {
    let before = datamodel::parse(
        r#"
            model A {
                id Int @id
                bs B[] @relation(name: "first")
            }
            model B {
                id Int @id
                as A[] @relation(name: "first")
            }
        "#,
    )
    .unwrap();
    let after = datamodel::parse(
        r#"
            model A {
                id Int @id
                bs B[] @relation(name: "second")
            }
            model B {
                id String @id @default(cuid())
                as A[] @relation(name: "second")
            }
        "#,
    )
    .unwrap();
    let steps = infer(Some(&before), &after).unwrap();
    assert_eq!(
        render(SqlFamily::Mysql, &steps),
        vec![
            "ALTER TABLE `B` DROP COLUMN `id`",
            "ALTER TABLE `B` ADD COLUMN `id` VARCHAR(191) NOT NULL",
            "ALTER TABLE `_first` RENAME TO `_second`",
            "ALTER TABLE `_second` DROP COLUMN `B`",
            "ALTER TABLE `_second` ADD COLUMN `B` VARCHAR(191) NOT NULL REFERENCES `B`(`id`) ON DELETE NO ACTION",
        ]
    );
}

/// The first step from the first datamodel to the second that the family
/// cannot carry out.
fn first_unsupported_step(family: SqlFamily, dm1: &str, dm2: &str) -> Option<MigrationStep> {
    let before = datamodel::parse(dm1).unwrap();
    let after = datamodel::parse(dm2).unwrap();
    let mut schema = DatabaseSchema::empty();
    let first = infer(None, &before).unwrap();
    assert_eq!(apply_supported(family, &mut schema, &first), None);
    let expected =
        datamodel::migration::calculate::DatabaseSchemaCalculator::calculate(&before).unwrap();
    assert_eq!(schema.tables.len(), expected.tables.len());
    let steps = infer(Some(&before), &after).unwrap();
    let reached = schema.clone();
    match apply_supported(family, &mut schema, &steps) {
        Some(i) => {
            let mut as_far = reached;
            for step in &steps[..i] {
                assert!(supports(family, &as_far, step));
                as_far.apply(step);
            }
            assert!(!supports(family, &as_far, &steps[i]));
            assert_eq!(schema, as_far);
            Some(steps[i].clone())
        }
        None => None,
    }
}

#[test]
fn mysql_keeps_columns_that_refer_to_other_tables() {
    let related = r#"
        model A {
            id Int @id
            b B @relation(references: [id])
            tags String[]
        }
        model B {
            id Int @id
            a A
        }
    "#;
    let unrelated = r#"
        model A {
            id Int @id
            tags String[]
        }
        model B {
            id Int @id
        }
    "#;
    let scalar = r#"
        model A {
            id Int @id
            b String
            tags String[]
        }
        model B {
            id Int @id
        }
    "#;
    let other_id = r#"
        model A {
            id String @id @default(cuid())
            b B @relation(references: [id])
            tags String[]
        }
        model B {
            id String @id @default(cuid())
            a A
        }
    "#;
    assert_eq!(
        first_unsupported_step(SqlFamily::Mysql, related, unrelated),
        Some(MigrationStep::DropColumn {
            table: "A".to_string(),
            name: "b".to_string()
        })
    );
    match first_unsupported_step(SqlFamily::Mysql, related, scalar) {
        Some(MigrationStep::AlterColumn { table, name, column }) => {
            assert_eq!((table.as_str(), name.as_str()), ("A", "b"));
            assert_eq!(column.tpe, ColumnType::String);
            assert_eq!(column.foreign_key, None);
        }
        other => panic!("{:?} is no change of a column", other),
    }
    match first_unsupported_step(SqlFamily::Mysql, related, other_id) {
        Some(MigrationStep::AlterColumn { table, name, .. }) => {
            assert_eq!((table.as_str(), name.as_str()), ("A_tags", "nodeId"));
        }
        other => panic!("{:?} is no change of a column", other),
    }
    assert_eq!(first_unsupported_step(SqlFamily::Mysql, scalar, related), None);
    for family in vec![SqlFamily::Postgres, SqlFamily::Sqlite] {
        assert_eq!(first_unsupported_step(family, related, unrelated), None);
        assert_eq!(first_unsupported_step(family, related, scalar), None);
        assert_eq!(first_unsupported_step(family, related, other_id), None);
    }
}
