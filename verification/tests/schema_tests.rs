//! Tests for schema analysis and the naming of generated entity code.

use rapina::schema::{
    analyze_schema, entity_derives, fk_column_name, has_float_field, relation_from_column,
    relation_to_column, related_entity_path, table_name_for, to_pascal_case, EntityAttrs,
    EntityDef, FieldAttrs, FieldDef, FieldType, RawFieldType, ScalarType, Schema,
};

fn attrs_default() -> EntityAttrs {
    EntityAttrs {
        table_name: None,
        has_created_at: true,
        has_updated_at: true,
        primary_key: None,
    }
}

fn attrs_no_timestamps() -> EntityAttrs {
    EntityAttrs {
        table_name: None,
        has_created_at: false,
        has_updated_at: false,
        primary_key: None,
    }
}

fn fattrs() -> FieldAttrs {
    FieldAttrs { unique: false, indexed: false, column_name: None }
}

fn scalar_field(name: &str, scalar: ScalarType) -> FieldDef {
    FieldDef {
        attrs: fattrs(),
        name: name.to_string(),
        ty: RawFieldType::Scalar { scalar, optional: false },
    }
}

fn vec_field(name: &str, inner: &str) -> FieldDef {
    FieldDef {
        attrs: fattrs(),
        name: name.to_string(),
        ty: RawFieldType::VecOf { inner: inner.to_string() },
    }
}

fn ref_field(name: &str, target: &str, optional: bool) -> FieldDef {
    FieldDef {
        attrs: fattrs(),
        name: name.to_string(),
        ty: RawFieldType::Unknown { name: target.to_string(), optional },
    }
}

fn entity(name: &str, attrs: EntityAttrs, fields: Vec<FieldDef>) -> EntityDef {
    EntityDef { attrs, name: name.to_string(), fields }
}

#[test]
fn test_analyze_simple_schema() {
    let schema = Schema {
        entities: vec![entity(
            "User",
            attrs_default(),
            vec![scalar_field("email", ScalarType::Str), scalar_field("name", ScalarType::Str)],
        )],
    };
    let analyzed = analyze_schema(schema).unwrap();
    assert_eq!(analyzed.entities.len(), 1);
    assert_eq!(analyzed.entities[0].fields.len(), 2);
}

#[test]
fn test_analyze_has_many_relationship() {
    let schema = Schema {
        entities: vec![
            entity("User", attrs_default(), vec![vec_field("posts", "Post")]),
            entity("Post", attrs_default(), vec![scalar_field("title", ScalarType::Str)]),
        ],
    };
    let analyzed = analyze_schema(schema).unwrap();
    let user = &analyzed.entities[0];
    assert!(matches!(user.fields[0].ty, FieldType::HasMany { .. }));
}

#[test]
fn test_analyze_belongs_to_relationship() {
    let schema = Schema {
        entities: vec![
            entity("User", attrs_default(), vec![scalar_field("email", ScalarType::Str)]),
            entity("Post", attrs_default(), vec![ref_field("author", "User", false)]),
        ],
    };
    let analyzed = analyze_schema(schema).unwrap();
    let post = &analyzed.entities[1];
    assert!(matches!(post.fields[0].ty, FieldType::BelongsTo { optional: false, .. }));
}

#[test]
fn test_analyze_optional_belongs_to() {
    let schema = Schema {
        entities: vec![
            entity("User", attrs_default(), vec![scalar_field("email", ScalarType::Str)]),
            entity("Comment", attrs_default(), vec![ref_field("author", "User", true)]),
        ],
    };
    let analyzed = analyze_schema(schema).unwrap();
    let comment = &analyzed.entities[1];
    assert!(matches!(comment.fields[0].ty, FieldType::BelongsTo { optional: true, .. }));
}

#[test]
fn test_unknown_entity_in_vec_error() {
    let schema = Schema {
        entities: vec![entity("User", attrs_default(), vec![vec_field("posts", "UnknownEntity")])],
    };
    let result = analyze_schema(schema);
    assert!(result.is_err());
    assert!(result.unwrap_err().message().contains("unknown entity"));
}

#[test]
fn test_unknown_type_error() {
    let schema = Schema {
        entities: vec![entity("User", attrs_default(), vec![ref_field("foo", "UnknownType", false)])],
    };
    let result = analyze_schema(schema);
    assert!(result.is_err());
    assert!(result.unwrap_err().message().contains("unknown type"));
}

#[test]
fn test_duplicate_entity_error() {
    let schema = Schema {
        entities: vec![
            entity("User", attrs_default(), vec![scalar_field("email", ScalarType::Str)]),
            entity("User", attrs_default(), vec![scalar_field("name", ScalarType::Str)]),
        ],
    };
    let result = analyze_schema(schema);
    assert!(result.is_err());
    assert!(result.unwrap_err().message().contains("duplicate entity"));
}

#[test]
fn test_analyze_preserves_entity_attrs() {
    let mut attrs = attrs_default();
    attrs.table_name = Some("people".to_string());
    let schema = Schema {
        entities: vec![entity("Person", attrs, vec![scalar_field("name", ScalarType::Str)])],
    };
    let analyzed = analyze_schema(schema).unwrap();
    assert_eq!(analyzed.entities[0].attrs.table_name, Some("people".to_string()));
}

#[test]
fn test_created_at_allowed_with_timestamps_none() {
    let schema = Schema {
        entities: vec![entity(
            "User",
            attrs_no_timestamps(),
            vec![
                scalar_field("email", ScalarType::Str),
                scalar_field("created_at", ScalarType::NaiveDateTime),
            ],
        )],
    };
    let result = analyze_schema(schema);
    assert!(result.is_ok());
}

#[test]
fn test_created_at_rejected_with_default_timestamps() {
    let schema = Schema {
        entities: vec![entity(
            "User",
            attrs_default(),
            vec![
                scalar_field("email", ScalarType::Str),
                scalar_field("created_at", ScalarType::NaiveDateTime),
            ],
        )],
    };
    let result = analyze_schema(schema);
    assert!(result.is_err());
    assert!(result.unwrap_err().message().contains("auto-generated"));
}

#[test]
fn test_analyze_preserves_field_attrs() {
    let mut f = scalar_field("email", ScalarType::Str);
    f.attrs.unique = true;
    f.attrs.column_name = Some("user_email".to_string());
    let schema = Schema { entities: vec![entity("User", attrs_default(), vec![f])] };
    let analyzed = analyze_schema(schema).unwrap();
    let field = &analyzed.entities[0].fields[0];
    assert!(field.attrs.unique);
    assert_eq!(field.attrs.column_name, Some("user_email".to_string()));
}

#[test]
fn test_analyze_composite_primary_key() {
    let mut attrs = attrs_no_timestamps();
    attrs.primary_key = Some(vec!["user_id".to_string(), "role_id".to_string()]);
    let schema = Schema {
        entities: vec![entity(
            "UsersRole",
            attrs,
            vec![scalar_field("user_id", ScalarType::I32), scalar_field("role_id", ScalarType::I32)],
        )],
    };
    let analyzed = analyze_schema(schema).unwrap();
    let e = &analyzed.entities[0];
    assert_eq!(
        e.attrs.primary_key,
        Some(vec!["user_id".to_string(), "role_id".to_string()])
    );
}

#[test]
fn test_analyze_primary_key_column_not_found() {
    let mut attrs = attrs_no_timestamps();
    attrs.primary_key = Some(vec!["user_id".to_string(), "nonexistent".to_string()]);
    let schema = Schema {
        entities: vec![entity(
            "UsersRole",
            attrs,
            vec![scalar_field("user_id", ScalarType::I32), scalar_field("role_id", ScalarType::I32)],
        )],
    };
    let result = analyze_schema(schema);
    assert!(result.is_err());
    assert!(result.unwrap_err().message().contains("does not exist"));
}

#[test]
fn test_analyze_primary_key_must_be_scalar() {
    let mut attrs = attrs_no_timestamps();
    attrs.primary_key = Some(vec!["author".to_string()]);
    let schema = Schema {
        entities: vec![
            entity("User", attrs_default(), vec![scalar_field("email", ScalarType::Str)]),
            entity(
                "Post",
                attrs,
                vec![ref_field("author", "User", false), scalar_field("title", ScalarType::Str)],
            ),
        ],
    };
    let result = analyze_schema(schema);
    assert!(result.is_err());
    assert!(result.unwrap_err().message().contains("scalar type"));
}

#[test]
fn test_analyze_primary_key_with_extra_fields() {
    let mut attrs = attrs_no_timestamps();
    attrs.primary_key = Some(vec!["user_id".to_string(), "role_id".to_string()]);
    let schema = Schema {
        entities: vec![entity(
            "UsersRole",
            attrs,
            vec![
                scalar_field("user_id", ScalarType::I32),
                scalar_field("role_id", ScalarType::I32),
                scalar_field("assigned_at", ScalarType::NaiveDateTime),
            ],
        )],
    };
    let analyzed = analyze_schema(schema).unwrap();
    let e = &analyzed.entities[0];
    assert_eq!(e.fields.len(), 3);
    assert_eq!(
        e.attrs.primary_key,
        Some(vec!["user_id".to_string(), "role_id".to_string()])
    );
}

#[test]
fn generate_test_to_pascal_case() {
    assert_eq!(to_pascal_case("hello_world"), "HelloWorld");
    assert_eq!(to_pascal_case("user"), "User");
    assert_eq!(to_pascal_case("author_id"), "AuthorId");
}

#[test]
fn test_generated_names() {
    assert_eq!(table_name_for(&attrs_default(), "BlogPost"), "blog_posts");
    let mut named = attrs_default();
    named.table_name = Some("people".to_string());
    assert_eq!(table_name_for(&named, "Person"), "people");
    assert_eq!(fk_column_name("author"), "author_id");
    assert_eq!(related_entity_path("Post"), "super::post::Entity");
    assert_eq!(relation_from_column("author"), "Column::AuthorId");
    assert_eq!(relation_to_column("User"), "super::user::Column::Id");
}

#[test]
fn test_entity_derives_float_omits_eq() {
    let with_float = entity(
        "Measurement",
        attrs_default(),
        vec![scalar_field("value", ScalarType::F32), scalar_field("label", ScalarType::Str)],
    );
    let schema = Schema { entities: vec![with_float] };
    let analyzed = analyze_schema(schema).unwrap();
    assert!(has_float_field(&analyzed.entities[0]));
    let derives = entity_derives(true);
    assert!(derives.contains("PartialEq"));
    assert!(!derives.contains("PartialEq, Eq"));
    assert!(entity_derives(false).contains("PartialEq, Eq"));
}
