//! Tests for database import: type conversion, table validation,
//! timestamp detection and relationship resolution.

use rapina::import::{
    database_url_kind, detect_timestamps, fields_for_table, filter_and_validate_tables,
    mysql_default_schema, normalized_to_field_info, resolve_relationships, DbUrlKind,
    IntrospectedColumn, IntrospectedForeignKey, IntrospectedTable, NormalizedType, RelationKind,
};

fn col(name: &str, col_type: NormalizedType, is_nullable: bool) -> IntrospectedColumn {
    IntrospectedColumn { name: name.to_string(), col_type, is_nullable }
}

fn table(name: &str, columns: Vec<IntrospectedColumn>, pk: Vec<&str>) -> IntrospectedTable {
    IntrospectedTable {
        name: name.to_string(),
        columns,
        primary_key_columns: pk.into_iter().map(|s| s.to_string()).collect(),
        foreign_keys: vec![],
    }
}

#[test]
fn test_normalized_to_field_info_string_not_null() {
    let fi = normalized_to_field_info("name", &NormalizedType::Str, false).unwrap();
    assert_eq!(fi.name, "name");
    assert_eq!(fi.rust_type, "String");
    assert_eq!(fi.schema_type, "String");
    assert_eq!(fi.column_method, ".string().not_null()");
}

#[test]
fn test_normalized_to_field_info_nullable() {
    let fi = normalized_to_field_info("bio", &NormalizedType::Text, true).unwrap();
    assert_eq!(fi.column_method, ".text().null()");
}

#[test]
fn test_normalized_to_field_info_unmappable() {
    let result =
        normalized_to_field_info("geom", &NormalizedType::Unmappable("geometry".into()), false);
    assert!(result.is_none());
}

#[test]
fn test_normalized_to_field_info_all_types() {
    let cases = vec![
        (NormalizedType::Str, "String", "String", ".string()"),
        (NormalizedType::Text, "String", "Text", ".text()"),
        (NormalizedType::I32, "i32", "i32", ".integer()"),
        (NormalizedType::I64, "i64", "i64", ".big_integer()"),
        (NormalizedType::F32, "f32", "f32", ".float()"),
        (NormalizedType::F64, "f64", "f64", ".double()"),
        (NormalizedType::Bool, "bool", "bool", ".boolean()"),
        (NormalizedType::Uuid, "Uuid", "Uuid", ".uuid()"),
        (NormalizedType::DateTimeUtc, "DateTimeUtc", "DateTime", ".timestamp_with_time_zone()"),
        (NormalizedType::NaiveDateTime, "DateTime", "NaiveDateTime", ".date_time()"),
        (NormalizedType::Date, "Date", "Date", ".date()"),
        (NormalizedType::Decimal, "Decimal", "Decimal", ".decimal()"),
        (NormalizedType::Json, "Json", "Json", ".json()"),
    ];

    for (norm_type, expected_rust, expected_schema, expected_col_base) in cases {
        let fi = normalized_to_field_info("x", &norm_type, false).unwrap();
        assert_eq!(fi.rust_type, expected_rust, "rust_type for {:?}", norm_type);
        assert_eq!(fi.schema_type, expected_schema, "schema_type for {:?}", norm_type);
        assert_eq!(
            fi.column_method,
            format!("{}.not_null()", expected_col_base),
            "column_method for {:?}",
            norm_type
        );
    }
}

#[test]
fn test_detect_timestamps_both() {
    let t = table(
        "users",
        vec![
            col("id", NormalizedType::I32, false),
            col("created_at", NormalizedType::DateTimeUtc, false),
            col("updated_at", NormalizedType::DateTimeUtc, false),
        ],
        vec!["id"],
    );
    assert_eq!(detect_timestamps(&t), None);
}

#[test]
fn test_detect_timestamps_none() {
    let t = table("tokens", vec![col("id", NormalizedType::I32, false)], vec!["id"]);
    assert_eq!(detect_timestamps(&t), Some("none"));
}

#[test]
fn test_detect_timestamps_created_only() {
    let t = table(
        "logs",
        vec![
            col("id", NormalizedType::I32, false),
            col("created_at", NormalizedType::DateTimeUtc, false),
        ],
        vec!["id"],
    );
    assert_eq!(detect_timestamps(&t), Some("created_at"));
}

#[test]
fn test_filter_skips_internal_tables() {
    let tables = vec![
        table("seaql_migrations", vec![], vec!["id"]),
        table("_prisma_migrations", vec![], vec!["id"]),
    ];
    let result = filter_and_validate_tables(tables, None);
    assert!(result.is_empty());
}

#[test]
fn test_filter_skips_no_pk() {
    let tables = vec![table("events", vec![], vec![])];
    let result = filter_and_validate_tables(tables, None);
    assert!(result.is_empty());
}

#[test]
fn test_filter_skips_composite_pk() {
    let tables = vec![table("pivot", vec![], vec!["user_id", "role_id"])];
    let result = filter_and_validate_tables(tables, None);
    assert_eq!(result.len(), 1);
}

#[test]
fn test_filter_skips_non_id_pk() {
    let tables = vec![
        table("events", vec![col("event_id", NormalizedType::I32, false)], vec!["event_id"]),
    ];
    let result = filter_and_validate_tables(tables, None);
    assert!(result.is_empty());
}

#[test]
fn test_filter_skips_uuid_pk() {
    let tables = vec![table("events", vec![col("id", NormalizedType::Uuid, false)], vec!["id"])];
    let result = filter_and_validate_tables(tables, None);
    assert!(result.is_empty());
}

#[test]
fn test_filter_accepts_valid_table() {
    let tables = vec![table("users", vec![col("id", NormalizedType::I32, false)], vec!["id"])];
    let result = filter_and_validate_tables(tables, None);
    assert_eq!(result.len(), 1);
    assert_eq!(result[0].name, "users");
}

#[test]
fn test_filter_applies_table_filter() {
    let tables = vec![
        table("users", vec![col("id", NormalizedType::I32, false)], vec!["id"]),
        table("posts", vec![col("id", NormalizedType::I32, false)], vec!["id"]),
    ];
    let filter = vec!["users".to_string()];
    let result = filter_and_validate_tables(tables, Some(filter));
    assert_eq!(result.len(), 1);
    assert_eq!(result[0].name, "users");
}

#[test]
fn test_resolve_relationships() {
    let tables = vec![
        table("users", vec![col("id", NormalizedType::I32, false)], vec!["id"]),
        IntrospectedTable {
            name: "posts".to_string(),
            columns: vec![
                col("id", NormalizedType::I32, false),
                col("user_id", NormalizedType::I32, false),
            ],
            primary_key_columns: vec!["id".to_string()],
            foreign_keys: vec![IntrospectedForeignKey {
                columns: vec!["user_id".to_string()],
                referenced_table: "users".to_string(),
                referenced_columns: vec!["id".to_string()],
            }],
        },
    ];

    let rels = resolve_relationships(&tables);

    // posts should have a BelongsTo User
    let post_rels = rels.get("posts").unwrap();
    assert_eq!(post_rels.len(), 1);
    assert_eq!(post_rels[0].field_name, "user");
    assert_eq!(post_rels[0].related_pascal, "User");
    assert!(matches!(post_rels[0].kind, RelationKind::BelongsTo));

    // users should have a HasMany Post
    let user_rels = rels.get("users").unwrap();
    assert_eq!(user_rels.len(), 1);
    assert_eq!(user_rels[0].field_name, "posts");
    assert_eq!(user_rels[0].related_pascal, "Post");
    assert!(matches!(user_rels[0].kind, RelationKind::HasMany));
}

#[test]
fn test_resolve_relationships_ignores_unknown_tables() {
    let tables = vec![IntrospectedTable {
        name: "posts".to_string(),
        columns: vec![col("id", NormalizedType::I32, false)],
        primary_key_columns: vec!["id".to_string()],
        foreign_keys: vec![IntrospectedForeignKey {
            columns: vec!["author_id".to_string()],
            referenced_table: "authors".to_string(),
            referenced_columns: vec!["id".to_string()],
        }],
    }];
    let rels = resolve_relationships(&tables);
    assert!(rels.get("posts").is_none());
    assert!(rels.get("authors").is_none());
}

#[test]
fn test_fields_for_table_skips_pk_and_timestamps() {
    let t = table(
        "users",
        vec![
            col("id", NormalizedType::I32, false),
            col("name", NormalizedType::Str, false),
            col("created_at", NormalizedType::DateTimeUtc, false),
            col("updated_at", NormalizedType::DateTimeUtc, false),
            col("geom", NormalizedType::Unmappable("geometry".into()), false),
        ],
        vec!["id"],
    );
    let (fields, skipped) = fields_for_table(&t);
    assert_eq!(fields.len(), 1);
    assert_eq!(fields[0].name, "name");
    assert_eq!(skipped, 1);
}

#[test]
fn test_fields_for_table_composite_keeps_key_columns() {
    let t = table(
        "users_roles",
        vec![
            col("user_id", NormalizedType::I32, false),
            col("role_id", NormalizedType::I32, false),
        ],
        vec!["user_id", "role_id"],
    );
    let (fields, skipped) = fields_for_table(&t);
    assert_eq!(fields.len(), 2);
    assert_eq!(skipped, 0);
}

#[test]
fn test_database_url_kind() {
    assert_eq!(database_url_kind("postgres://u@h/db"), DbUrlKind::Postgres);
    assert_eq!(database_url_kind("postgresql://u@h/db"), DbUrlKind::Postgres);
    assert_eq!(database_url_kind("mysql://u@h/db"), DbUrlKind::MySql);
    assert_eq!(database_url_kind("mariadb://u@h/db"), DbUrlKind::MySql);
    assert_eq!(database_url_kind("sqlite://file.db"), DbUrlKind::Sqlite);
    assert_eq!(database_url_kind("sqlite:file.db"), DbUrlKind::Sqlite);
    assert_eq!(database_url_kind("redis://h"), DbUrlKind::Unsupported);
}

#[test]
fn test_mysql_default_schema() {
    assert_eq!(mysql_default_schema("mysql://u@h/mydb"), "mydb");
    assert_eq!(mysql_default_schema("nodb"), "nodb");
}
