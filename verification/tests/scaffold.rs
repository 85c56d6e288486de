//! Tests for the scaffolding text generators and their input parsing.

use rapina::add::{parse_field, validate_resource_name};
use rapina::codegen::{
    generate_dto, generate_error, generate_handlers, generate_migration, generate_mod_rs,
    generate_schema_block, pluralize, singularize, to_pascal_case, FieldInfo,
};
use rapina::urls::{build_openapi_url, build_routes_url};

fn field(name: &str, rust_type: &str, schema_type: &str, column_method: &str) -> FieldInfo {
    FieldInfo {
        name: name.to_string(),
        rust_type: rust_type.to_string(),
        schema_type: schema_type.to_string(),
        column_method: column_method.to_string(),
    }
}

#[test]
fn test_parse_field_valid() {
    let f = parse_field("name:string").unwrap();
    assert_eq!(f.name, "name");
    assert_eq!(f.rust_type, "String");
    assert_eq!(f.schema_type, "String");

    let f = parse_field("active:bool").unwrap();
    assert_eq!(f.name, "active");
    assert_eq!(f.rust_type, "bool");

    let f = parse_field("age:i32").unwrap();
    assert_eq!(f.name, "age");
    assert_eq!(f.rust_type, "i32");

    let f = parse_field("count:integer").unwrap();
    assert_eq!(f.name, "count");
    assert_eq!(f.rust_type, "i32");

    let f = parse_field("score:f64").unwrap();
    assert_eq!(f.name, "score");
    assert_eq!(f.rust_type, "f64");

    let f = parse_field("external_id:uuid").unwrap();
    assert_eq!(f.name, "external_id");
    assert_eq!(f.rust_type, "Uuid");
}

#[test]
fn test_parse_field_all_types() {
    let cases = vec![
        ("x:string", "String", "String"),
        ("x:text", "String", "Text"),
        ("x:i32", "i32", "i32"),
        ("x:integer", "i32", "i32"),
        ("x:i64", "i64", "i64"),
        ("x:bigint", "i64", "i64"),
        ("x:f32", "f32", "f32"),
        ("x:float", "f32", "f32"),
        ("x:f64", "f64", "f64"),
        ("x:double", "f64", "f64"),
        ("x:bool", "bool", "bool"),
        ("x:boolean", "bool", "bool"),
        ("x:uuid", "Uuid", "Uuid"),
        ("x:datetime", "DateTimeUtc", "DateTime"),
        ("x:date", "Date", "Date"),
        ("x:decimal", "Decimal", "Decimal"),
        ("x:json", "Json", "Json"),
    ];
    for (input, expected_rust, expected_schema) in cases {
        let f = parse_field(input).unwrap();
        assert_eq!(f.rust_type, expected_rust, "failed for {}", input);
        assert_eq!(f.schema_type, expected_schema, "failed for {}", input);
    }
}

#[test]
fn test_parse_field_invalid() {
    assert!(parse_field("name").is_err());
    assert!(parse_field(":string").is_err());
    assert!(parse_field("name:unknown").is_err());
    assert!(parse_field("Name:string").is_err());
}

#[test]
fn test_validate_resource_name_valid() {
    assert!(validate_resource_name("user").is_ok());
    assert!(validate_resource_name("blog_post").is_ok());
    assert!(validate_resource_name("item123").is_ok());
}

#[test]
fn test_validate_resource_name_invalid() {
    assert!(validate_resource_name("").is_err());
    assert!(validate_resource_name("User").is_err());
    assert!(validate_resource_name("_user").is_err());
    assert!(validate_resource_name("user_").is_err());
    assert!(validate_resource_name("self").is_err());
    assert!(validate_resource_name("user-name").is_err());
}

#[test]
fn add_test_to_pascal_case() {
    assert_eq!(to_pascal_case("user"), "User");
    assert_eq!(to_pascal_case("blog_post"), "BlogPost");
    assert_eq!(to_pascal_case("my_long_name"), "MyLongName");
}

#[test]
fn test_pluralize() {
    assert_eq!(pluralize("user"), "users");
    assert_eq!(pluralize("post"), "posts");
    assert_eq!(pluralize("blog_post"), "blog_posts");
}

#[test]
fn test_singularize() {
    assert_eq!(singularize("users"), "user");
    assert_eq!(singularize("posts"), "post");
    assert_eq!(singularize("categories"), "category");
    assert_eq!(singularize("addresses"), "address");
    assert_eq!(singularize("boxes"), "box");
    assert_eq!(singularize("buzzes"), "buzz");
    assert_eq!(singularize("boss"), "boss");
    assert_eq!(singularize("status"), "statu"); // naive, acceptable
}

#[test]
fn test_generate_mod_rs() {
    let content = generate_mod_rs();
    assert!(content.contains("pub mod dto;"));
    assert!(content.contains("pub mod error;"));
    assert!(content.contains("pub mod handlers;"));
}

#[test]
fn test_generate_handlers() {
    let fields = vec![
        field("title", "String", "String", ".string().not_null()"),
        field("active", "bool", "bool", ".boolean().not_null()"),
    ];
    let content = generate_handlers("post", "posts", "Post", &fields);

    assert!(content.contains("use crate::entity::Post;"));
    assert!(content.contains("use crate::entity::post::{ActiveModel, Model};"));
    assert!(content.contains("pub async fn list_posts"));
    assert!(content.contains("pub async fn get_post"));
    assert!(content.contains("pub async fn create_post"));
    assert!(content.contains("pub async fn update_post"));
    assert!(content.contains("pub async fn delete_post"));
    assert!(content.contains("#[get(\"/posts\")]"));
    assert!(content.contains("#[post(\"/posts\")]"));
    assert!(content.contains("#[put(\"/posts/:id\")]"));
    assert!(content.contains("#[delete(\"/posts/:id\")]"));
    assert!(content.contains("title: Set(input.title),"));
    assert!(content.contains("active: Set(input.active),"));
    assert!(content.contains("if let Some(val) = update.title"));
    assert!(content.contains("if let Some(val) = update.active"));
}

#[test]
fn test_generate_dto() {
    let fields = vec![field("name", "String", "String", ""), field("age", "i32", "i32", "")];
    let content = generate_dto("User", &fields);

    assert!(content.contains("pub struct CreateUser"));
    assert!(content.contains("pub struct UpdateUser"));
    assert!(content.contains("pub name: String,"));
    assert!(content.contains("pub age: i32,"));
    assert!(content.contains("pub name: Option<String>,"));
    assert!(content.contains("pub age: Option<i32>,"));
}

#[test]
fn test_generate_dto_prelude_import() {
    let plain = generate_dto("User", &vec![field("name", "String", "String", "")]);
    assert!(!plain.contains("use rapina::sea_orm::prelude::*;"));
    let with_uuid = generate_dto("User", &vec![field("ext", "Uuid", "Uuid", "")]);
    assert!(with_uuid.contains("use rapina::sea_orm::prelude::*;"));
}

#[test]
fn test_generate_error() {
    let content = generate_error("User");

    assert!(content.contains("pub enum UserError"));
    assert!(content.contains("impl IntoApiError for UserError"));
    assert!(content.contains("impl DocumentedError for UserError"));
    assert!(content.contains("impl From<DbError> for UserError"));
    assert!(content.contains("\"User not found\""));
}

#[test]
fn test_generate_schema_block() {
    let fields = vec![field("title", "String", "String", ""), field("done", "bool", "bool", "")];
    let content = generate_schema_block("Todo", &fields, None);

    assert!(content.contains("schema! {"));
    assert!(content.contains("Todo {"));
    assert!(content.contains("title: String,"));
    assert!(content.contains("done: bool,"));
}

#[test]
fn test_generate_schema_block_with_timestamps() {
    let fields = vec![field("title", "String", "String", "")];

    let block = generate_schema_block("Post", &fields, None);
    assert!(block.contains("schema! {"));
    assert!(block.contains("Post {"));
    assert!(block.contains("title: String,"));
    assert!(!block.contains("#[timestamps"));

    let block = generate_schema_block("Post", &fields, Some("none"));
    assert!(block.contains("#[timestamps(none)]"));

    let block = generate_schema_block("Post", &fields, Some("created_at"));
    assert!(block.contains("#[timestamps(created_at)]"));
}

#[test]
fn test_generate_migration() {
    let fields = vec![
        field("title", "String", "String", ".string().not_null()"),
        field("published", "bool", "bool", ".boolean().not_null()"),
    ];
    let content = generate_migration("posts", "Posts", &fields);

    assert!(content.contains("MigrationTrait for Migration"));
    assert!(content.contains("Posts::Table"));
    assert!(content.contains("Posts::Id"));
    assert!(content.contains("Posts::Title"));
    assert!(content.contains("Posts::Published"));
    assert!(content.contains(".string().not_null()"));
    assert!(content.contains(".boolean().not_null()"));
    assert!(content.contains("enum Posts {"));
    assert!(content.contains("drop_table"));
}

#[test]
fn test_parse_field_error_messages() {
    let e = parse_field("name").unwrap_err();
    assert_eq!(
        e,
        "Invalid field format 'name'. Expected 'name:type' (e.g., 'title:string')"
    );
    let e = parse_field("  :string").unwrap_err();
    assert_eq!(e, "Field name cannot be empty");
    let e = parse_field("Name:string").unwrap_err();
    assert_eq!(
        e,
        "Field name must be lowercase alphanumeric with underscores, got 'Name'"
    );
    let e = parse_field("name:unknown").unwrap_err();
    assert!(e.starts_with("Unknown field type 'unknown'. Supported types:"));
}

#[test]
fn test_parse_field_trims_and_lowers() {
    let f = parse_field(" title : STRING ").unwrap();
    assert_eq!(f.name, "title");
    assert_eq!(f.rust_type, "String");
    assert_eq!(f.column_method, ".string().not_null()");
}

#[test]
fn test_validate_resource_name_messages() {
    assert_eq!(
        validate_resource_name("").unwrap_err(),
        "Resource name cannot be empty"
    );
    assert_eq!(
        validate_resource_name("user-name").unwrap_err(),
        "Resource name must be lowercase alphanumeric with underscores, got '-'"
    );
    assert_eq!(
        validate_resource_name("_user").unwrap_err(),
        "Resource name cannot start or end with underscore"
    );
    assert_eq!(
        validate_resource_name("enum").unwrap_err(),
        "'enum' is a reserved Rust keyword"
    );
}

#[test]
fn test_build_routes_url() {
    assert_eq!(
        build_routes_url("localhost", 3000),
        "http://localhost:3000/__rapina/routes"
    );
    assert_eq!(build_routes_url("127.0.0.1", 80), "http://127.0.0.1:80/__rapina/routes");
}

#[test]
fn test_build_openapi_url() {
    assert_eq!(
        build_openapi_url(&"localhost".to_string(), &8080),
        "http://localhost:8080/__rapina/openapi.json"
    );
}
