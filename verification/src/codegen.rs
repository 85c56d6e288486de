//! Text generators for the resource scaffolding tool: naming helpers
//! and the source-file templates for handlers, DTOs, errors, schema
//! blocks and migrations.

use vstd::prelude::*;

use crate::text::{push_char, spec_upper_char, upper_char};

verus! {

/// One resource field: its name and the three type spellings the
/// generators need.
#[derive(Debug)]
pub struct FieldInfo {
    pub name: String,
    pub rust_type: String,
    pub schema_type: String,
    pub column_method: String,
}

// ---------------------------------------------------------------------
// Naming helpers
// ---------------------------------------------------------------------

/// Pascal-casing, one character at a time: an underscore is dropped
/// and makes the next character uppercase; the first character of
/// the string is uppercased too.
pub open spec fn pascal_acc(s: Seq<char>, boundary: bool) -> Seq<char>
    decreases s.len(),
{
    if s.len() == 0 {
        Seq::empty()
    } else if s[0] == '_' {
        pascal_acc(s.skip(1), true)
    } else if boundary {
        seq![spec_upper_char(s[0])] + pascal_acc(s.skip(1), false)
    } else {
        seq![s[0]] + pascal_acc(s.skip(1), false)
    }
}

/// The PascalCase form of a snake_case name.
pub open spec fn spec_pascal(s: Seq<char>) -> Seq<char> {
    pascal_acc(s, true)
}

/// Converts a snake_case name to PascalCase: each underscore-
/// separated part is capitalized and the underscores are dropped.
pub fn to_pascal_case(s: &str) -> (r: String)
    ensures
        r@ == spec_pascal(s@),
{
    let len = s.unicode_len();
    let mut out = String::new();
    let mut boundary = true;
    let mut i: usize = 0;
    proof {
        assert(s@.skip(0) =~= s@);
    }
    while i < len
        invariant
            i <= len,
            len == s@.len(),
            spec_pascal(s@) == out@ + pascal_acc(s@.skip(i as int), boundary),
        decreases len - i,
    {
        let c = s.get_char(i);
        let ghost prev = out@;
        proof {
            assert(s@.skip(i as int)[0] == s@[i as int]);
            assert(s@.skip(i as int).skip(1) =~= s@.skip(i + 1));
        }
        if c == '_' {
            boundary = true;
        } else if boundary {
            push_char(&mut out, upper_char(c));
            boundary = false;
            proof {
                assert(prev + (seq![spec_upper_char(s@[i as int])] + pascal_acc(
                    s@.skip(i + 1),
                    false,
                )) =~= out@ + pascal_acc(s@.skip(i + 1), false));
            }
        } else {
            push_char(&mut out, c);
            proof {
                assert(prev + (seq![s@[i as int]] + pascal_acc(s@.skip(i + 1), false)) =~= out@
                    + pascal_acc(s@.skip(i + 1), false));
            }
        }
        i = i + 1;
    }
    proof {
        assert(s@.skip(len as int) =~= Seq::<char>::empty());
        assert(out@ + Seq::<char>::empty() =~= out@);
    }
    out
}

/// Appends the plural suffix to a resource name.
pub fn pluralize(s: &str) -> (r: String)
    ensures
        r@ == s@ + "s"@,
{
    let mut r = s.to_owned();
    r.append("s");
    r
}

/// Whether a string ends in a suffix.
pub open spec fn spec_has_suffix(s: Seq<char>, suf: Seq<char>) -> bool {
    s.len() >= suf.len() && s.skip(s.len() - suf.len()) == suf
}

/// The string with a suffix of that length removed.
pub open spec fn spec_strip(s: Seq<char>, suf: Seq<char>) -> Seq<char> {
    s.take(s.len() - suf.len())
}

pub(crate) fn has_suffix(s: &str, suf: &str) -> (r: bool)
    ensures
        r == spec_has_suffix(s@, suf@),
{
    let slen = s.unicode_len();
    let suflen = suf.unicode_len();
    if slen < suflen {
        return false;
    }
    let tail = s.substring_char(slen - suflen, slen);
    proof {
        assert(tail@ =~= s@.skip(s@.len() - suf@.len()));
    }
    crate::text::str_eq(tail, suf)
}

/// The singular form of a plural table name, by suffix rules:
/// `ies` becomes `y`; `sses`, `shes`, `ches`, `xes`, `zes` and `ses`
/// drop their final `es`; otherwise one trailing `s` is dropped
/// unless the stem itself ends in `s`.
pub open spec fn spec_singularize(s: Seq<char>) -> Seq<char> {
    if spec_has_suffix(s, "ies"@) {
        spec_strip(s, "ies"@) + "y"@
    } else if spec_has_suffix(s, "sses"@) {
        spec_strip(s, "sses"@) + "ss"@
    } else if spec_has_suffix(s, "shes"@) {
        spec_strip(s, "shes"@) + "sh"@
    } else if spec_has_suffix(s, "ches"@) {
        spec_strip(s, "ches"@) + "ch"@
    } else if spec_has_suffix(s, "xes"@) {
        spec_strip(s, "xes"@) + "x"@
    } else if spec_has_suffix(s, "zes"@) {
        spec_strip(s, "zes"@) + "z"@
    } else if spec_has_suffix(s, "ses"@) {
        spec_strip(s, "ses"@) + "s"@
    } else if spec_has_suffix(s, "s"@) {
        if spec_has_suffix(spec_strip(s, "s"@), "s"@) {
            s
        } else {
            spec_strip(s, "s"@)
        }
    } else {
        s
    }
}

fn strip_owned(s: &str, suflen: usize) -> (r: String)
    requires
        suflen <= s@.len(),
    ensures
        r@ == s@.take(s@.len() - suflen),
{
    let slen = s.unicode_len();
    let stem = s.substring_char(0, slen - suflen);
    proof {
        assert(stem@ =~= s@.take(s@.len() - suflen));
    }
    stem.to_owned()
}

/// Reduces a plural name to its singular, naively, by suffix rules.
pub fn singularize(s: &str) -> (r: String)
    ensures
        r@ == spec_singularize(s@),
{
    proof {
        reveal_strlit("ies");
        reveal_strlit("sses");
        reveal_strlit("shes");
        reveal_strlit("ches");
        reveal_strlit("xes");
        reveal_strlit("zes");
        reveal_strlit("ses");
        reveal_strlit("s");
        reveal_strlit("y");
        reveal_strlit("ss");
        reveal_strlit("sh");
        reveal_strlit("ch");
        reveal_strlit("x");
        reveal_strlit("z");
    }
    if has_suffix(s, "ies") {
        let mut r = strip_owned(s, 3);
        r.append("y");
        r
    } else if has_suffix(s, "sses") {
        let mut r = strip_owned(s, 4);
        r.append("ss");
        r
    } else if has_suffix(s, "shes") {
        let mut r = strip_owned(s, 4);
        r.append("sh");
        r
    } else if has_suffix(s, "ches") {
        let mut r = strip_owned(s, 4);
        r.append("ch");
        r
    } else if has_suffix(s, "xes") {
        let mut r = strip_owned(s, 3);
        r.append("x");
        r
    } else if has_suffix(s, "zes") {
        let mut r = strip_owned(s, 3);
        r.append("z");
        r
    } else if has_suffix(s, "ses") {
        let mut r = strip_owned(s, 3);
        r.append("s");
        r
    } else if has_suffix(s, "s") {
        let slen = s.unicode_len();
        let stem = s.substring_char(0, slen - 1);
        proof {
            assert(stem@ =~= s@.take(s@.len() - 1));
        }
        if has_suffix(stem, "s") {
            s.to_owned()
        } else {
            stem.to_owned()
        }
    } else {
        s.to_owned()
    }
}

/// The body of a feature module's `mod.rs`.
pub fn generate_mod_rs() -> (r: String)
    ensures
        r@ == "pub mod dto;\npub mod error;\npub mod handlers;\n"@,
{
    "pub mod dto;\npub mod error;\npub mod handlers;\n".to_owned()
}

// ---------------------------------------------------------------------
// Handlers template
// ---------------------------------------------------------------------

/// One field line of the create handler's model literal.
pub open spec fn spec_create_line(n: Seq<char>) -> Seq<char> {
    "        "@ + n + ": Set(input."@ + n + "),"@
}

/// One field update of the update handler.
pub open spec fn spec_update_check(n: Seq<char>) -> Seq<char> {
    "    if let Some(val) = update."@ + n + " {\n        active."@ + n + " = Set(val);\n    }"@
}

/// The handlers file for a resource: the five CRUD handlers over the
/// generated entity, with the create and update bodies built from
/// the field names.
pub open spec fn spec_handlers_text(
    singular: Seq<char>,
    plural: Seq<char>,
    pascal: Seq<char>,
    names: Seq<Seq<char>>,
) -> Seq<char> {
    let create_body = crate::text::spec_join(
        names.map_values(|n: Seq<char>| spec_create_line(n)),
        "\n"@,
    );
    let update_body = crate::text::spec_join(
        names.map_values(|n: Seq<char>| spec_update_check(n)),
        "\n"@,
    );
    "use rapina::prelude::*;\nuse rapina::database::{Db, DbError};\nuse rapina::sea_orm::{ActiveModelTrait, EntityTrait, IntoActiveModel, Set};\n\nuse crate::entity::"@
        + pascal + ";\nuse crate::entity::"@ + singular
        + "::{ActiveModel, Model};\n\nuse super::dto::{Create"@ + pascal + ", Update"@ + pascal
        + "};\nuse super::error::"@ + pascal + "Error;\n\n#[get(\"/"@ + plural
        + "\")]\n#[errors("@ + pascal + "Error)]\npub async fn list_"@ + plural
        + "(db: Db) -> Result<Json<Vec<Model>>> {\n    let items = "@ + pascal
        + "::find().all(db.conn()).await.map_err(DbError)?;\n    Ok(Json(items))\n}\n\n#[get(\"/"@
        + plural + "/:id\")]\n#[errors("@ + pascal + "Error)]\npub async fn get_"@ + singular
        + "(db: Db, id: Path<i32>) -> Result<Json<Model>> {\n    let id = id.into_inner();\n    let item = "@
        + pascal
        + "::find_by_id(id)\n        .one(db.conn())\n        .await\n        .map_err(DbError)?\n        .ok_or_else(|| Error::not_found(format!(\""@
        + pascal + " {} not found\", id)))?;\n    Ok(Json(item))\n}\n\n#[post(\"/"@ + plural
        + "\")]\n#[errors("@ + pascal + "Error)]\npub async fn create_"@ + singular
        + "(db: Db, body: Json<Create"@ + pascal
        + ">) -> Result<Json<Model>> {\n    let input = body.into_inner();\n    let item = ActiveModel {\n"@
        + create_body
        + "\n        ..Default::default()\n    };\n    let result = item.insert(db.conn()).await.map_err(DbError)?;\n    Ok(Json(result))\n}\n\n#[put(\"/"@
        + plural + "/:id\")]\n#[errors("@ + pascal + "Error)]\npub async fn update_"@ + singular
        + "(db: Db, id: Path<i32>, body: Json<Update"@ + pascal
        + ">) -> Result<Json<Model>> {\n    let id = id.into_inner();\n    let item = "@ + pascal
        + "::find_by_id(id)\n        .one(db.conn())\n        .await\n        .map_err(DbError)?\n        .ok_or_else(|| Error::not_found(format!(\""@
        + pascal
        + " {} not found\", id)))?;\n\n    let update = body.into_inner();\n    let mut active: ActiveModel = item.into_active_model();\n"@
        + update_body
        + "\n\n    let result = active.update(db.conn()).await.map_err(DbError)?;\n    Ok(Json(result))\n}\n\n#[delete(\"/"@
        + plural + "/:id\")]\n#[errors("@ + pascal + "Error)]\npub async fn delete_"@ + singular
        + "(db: Db, id: Path<i32>) -> Result<Json<serde_json::Value>> {\n    let id = id.into_inner();\n    let result = "@
        + pascal
        + "::delete_by_id(id)\n        .exec(db.conn())\n        .await\n        .map_err(DbError)?;\n    if result.rows_affected == 0 {\n        return Err(Error::not_found(format!(\""@
        + pascal
        + " {} not found\", id)));\n    }\n    Ok(Json(serde_json::json!({ \"deleted\": id })))\n}\n"@
}

/// The names of a field list.
pub open spec fn spec_field_names(fields: Seq<FieldInfo>) -> Seq<Seq<char>> {
    fields.map_values(|f: FieldInfo| f.name@)
}

fn build_create_body(fields: &Vec<FieldInfo>) -> (r: String)
    ensures
        r@ == crate::text::spec_join(
            spec_field_names(fields@).map_values(|n: Seq<char>| spec_create_line(n)),
            "\n"@,
        ),
{
    let ghost lspec = spec_field_names(fields@).map_values(|n: Seq<char>| spec_create_line(n));
    let mut lines: Vec<String> = Vec::new();
    let mut i: usize = 0;
    proof {
        assert(lines@.map_values(|l: String| l@) =~= lspec.take(0));
    }
    while i < fields.len()
        invariant
            i <= fields@.len(),
            lspec == spec_field_names(fields@).map_values(|n: Seq<char>| spec_create_line(n)),
            lines@.map_values(|l: String| l@) == lspec.take(i as int),
        decreases fields@.len() - i,
    {
        let mut line = String::new();
        line.append("        ");
        line.append(fields[i].name.as_str());
        line.append(": Set(input.");
        line.append(fields[i].name.as_str());
        line.append("),");
        proof {
            assert(line@ =~= spec_create_line(fields@[i as int].name@));
        }
        let ghost prev = lines@;
        lines.push(line);
        proof {
            assert(prev.map_values(|l: String| l@).len() == lspec.take(i as int).len());
            assert(prev.len() == i);
            assert(spec_field_names(fields@)[i as int] == fields@[i as int].name@);
            assert(lspec[i as int] == spec_create_line(spec_field_names(fields@)[i as int]));
            assert forall|j: int| 0 <= j <= i implies lines@.map_values(|l: String| l@)[j]
                == #[trigger] lspec.take(i + 1)[j] by {
                if j < i {
                    assert(prev.map_values(|l: String| l@)[j] == lspec.take(i as int)[j]);
                    assert(lines@[j] == prev[j]);
                } else {
                    assert(lines@[j] == line);
                }
            }
            assert(lines@.map_values(|l: String| l@) =~= lspec.take(i + 1));
        }
        i = i + 1;
    }
    proof {
        assert(lspec.take(fields@.len() as int) =~= lspec);
    }
    crate::text::join_strings(&lines, "\n")
}

fn build_update_body(fields: &Vec<FieldInfo>) -> (r: String)
    ensures
        r@ == crate::text::spec_join(
            spec_field_names(fields@).map_values(|n: Seq<char>| spec_update_check(n)),
            "\n"@,
        ),
{
    let ghost lspec = spec_field_names(fields@).map_values(|n: Seq<char>| spec_update_check(n));
    let mut lines: Vec<String> = Vec::new();
    let mut i: usize = 0;
    proof {
        assert(lines@.map_values(|l: String| l@) =~= lspec.take(0));
    }
    while i < fields.len()
        invariant
            i <= fields@.len(),
            lspec == spec_field_names(fields@).map_values(|n: Seq<char>| spec_update_check(n)),
            lines@.map_values(|l: String| l@) == lspec.take(i as int),
        decreases fields@.len() - i,
    {
        let mut line = String::new();
        line.append("    if let Some(val) = update.");
        line.append(fields[i].name.as_str());
        line.append(" {\n        active.");
        line.append(fields[i].name.as_str());
        line.append(" = Set(val);\n    }");
        proof {
            assert(line@ =~= spec_update_check(fields@[i as int].name@));
        }
        let ghost prev = lines@;
        lines.push(line);
        proof {
            assert(prev.map_values(|l: String| l@).len() == lspec.take(i as int).len());
            assert(prev.len() == i);
            assert(spec_field_names(fields@)[i as int] == fields@[i as int].name@);
            assert(lspec[i as int] == spec_update_check(spec_field_names(fields@)[i as int]));
            assert forall|j: int| 0 <= j <= i implies lines@.map_values(|l: String| l@)[j]
                == #[trigger] lspec.take(i + 1)[j] by {
                if j < i {
                    assert(prev.map_values(|l: String| l@)[j] == lspec.take(i as int)[j]);
                    assert(lines@[j] == prev[j]);
                } else {
                    assert(lines@[j] == line);
                }
            }
            assert(lines@.map_values(|l: String| l@) =~= lspec.take(i + 1));
        }
        i = i + 1;
    }
    proof {
        assert(lspec.take(fields@.len() as int) =~= lspec);
    }
    crate::text::join_strings(&lines, "\n")
}

/// The handlers file for one resource.
pub fn generate_handlers(singular: &str, plural: &str, pascal: &str, fields: &Vec<FieldInfo>) -> (r:
    String)
    ensures
        r@ == spec_handlers_text(singular@, plural@, pascal@, spec_field_names(fields@)),
{
    let create_body = build_create_body(fields);
    let update_body = build_update_body(fields);
    let mut out = String::new();
    out.append(
        "use rapina::prelude::*;\nuse rapina::database::{Db, DbError};\nuse rapina::sea_orm::{ActiveModelTrait, EntityTrait, IntoActiveModel, Set};\n\nuse crate::entity::",
    );
    out.append(pascal);
    out.append(";\nuse crate::entity::");
    out.append(singular);
    out.append("::{ActiveModel, Model};\n\nuse super::dto::{Create");
    out.append(pascal);
    out.append(", Update");
    out.append(pascal);
    out.append("};\nuse super::error::");
    out.append(pascal);
    out.append("Error;\n\n#[get(\"/");
    out.append(plural);
    out.append("\")]\n#[errors(");
    out.append(pascal);
    out.append("Error)]\npub async fn list_");
    out.append(plural);
    out.append("(db: Db) -> Result<Json<Vec<Model>>> {\n    let items = ");
    out.append(pascal);
    out.append("::find().all(db.conn()).await.map_err(DbError)?;\n    Ok(Json(items))\n}\n\n#[get(\"/");
    out.append(plural);
    out.append("/:id\")]\n#[errors(");
    out.append(pascal);
    out.append("Error)]\npub async fn get_");
    out.append(singular);
    out.append("(db: Db, id: Path<i32>) -> Result<Json<Model>> {\n    let id = id.into_inner();\n    let item = ");
    out.append(pascal);
    out.append(
        "::find_by_id(id)\n        .one(db.conn())\n        .await\n        .map_err(DbError)?\n        .ok_or_else(|| Error::not_found(format!(\"",
    );
    out.append(pascal);
    out.append(" {} not found\", id)))?;\n    Ok(Json(item))\n}\n\n#[post(\"/");
    out.append(plural);
    out.append("\")]\n#[errors(");
    out.append(pascal);
    out.append("Error)]\npub async fn create_");
    out.append(singular);
    out.append("(db: Db, body: Json<Create");
    out.append(pascal);
    out.append(
        ">) -> Result<Json<Model>> {\n    let input = body.into_inner();\n    let item = ActiveModel {\n",
    );
    out.append(create_body.as_str());
    out.append(
        "\n        ..Default::default()\n    };\n    let result = item.insert(db.conn()).await.map_err(DbError)?;\n    Ok(Json(result))\n}\n\n#[put(\"/",
    );
    out.append(plural);
    out.append("/:id\")]\n#[errors(");
    out.append(pascal);
    out.append("Error)]\npub async fn update_");
    out.append(singular);
    out.append("(db: Db, id: Path<i32>, body: Json<Update");
    out.append(pascal);
    out.append(">) -> Result<Json<Model>> {\n    let id = id.into_inner();\n    let item = ");
    out.append(pascal);
    out.append(
        "::find_by_id(id)\n        .one(db.conn())\n        .await\n        .map_err(DbError)?\n        .ok_or_else(|| Error::not_found(format!(\"",
    );
    out.append(pascal);
    out.append(
        " {} not found\", id)))?;\n\n    let update = body.into_inner();\n    let mut active: ActiveModel = item.into_active_model();\n",
    );
    out.append(update_body.as_str());
    out.append(
        "\n\n    let result = active.update(db.conn()).await.map_err(DbError)?;\n    Ok(Json(result))\n}\n\n#[delete(\"/",
    );
    out.append(plural);
    out.append("/:id\")]\n#[errors(");
    out.append(pascal);
    out.append("Error)]\npub async fn delete_");
    out.append(singular);
    out.append(
        "(db: Db, id: Path<i32>) -> Result<Json<serde_json::Value>> {\n    let id = id.into_inner();\n    let result = ",
    );
    out.append(pascal);
    out.append(
        "::delete_by_id(id)\n        .exec(db.conn())\n        .await\n        .map_err(DbError)?;\n    if result.rows_affected == 0 {\n        return Err(Error::not_found(format!(\"",
    );
    out.append(pascal);
    out.append(" {} not found\", id)));\n    }\n    Ok(Json(serde_json::json!({ \"deleted\": id })))\n}\n");
    proof {
        assert(out@ =~= spec_handlers_text(singular@, plural@, pascal@, spec_field_names(fields@)));
    }
    out
}


// ---------------------------------------------------------------------
// DTO template
// ---------------------------------------------------------------------

/// One field of the create DTO.
pub open spec fn spec_dto_create_line(n: Seq<char>, t: Seq<char>) -> Seq<char> {
    "    pub "@ + n + ": "@ + t + ","@
}

/// One field of the update DTO: every field optional.
pub open spec fn spec_dto_update_line(n: Seq<char>, t: Seq<char>) -> Seq<char> {
    "    pub "@ + n + ": Option<"@ + t + ">,"@
}

/// Whether a Rust type spelling needs the generated prelude import.
pub open spec fn spec_needs_prelude_type(t: Seq<char>) -> bool {
    t == "Uuid"@ || t == "DateTimeUtc"@ || t == "Date"@ || t == "Decimal"@ || t == "Json"@
}

/// Whether any field's type needs the generated prelude import.
pub open spec fn spec_any_needs_prelude(fs: Seq<FieldInfo>) -> bool
    decreases fs.len(),
{
    if fs.len() == 0 {
        false
    } else {
        spec_needs_prelude_type(fs[0].rust_type@) || spec_any_needs_prelude(fs.skip(1))
    }
}

/// The DTO file for a resource: a create struct with every field,
/// and an update struct with every field optional.
pub open spec fn spec_dto_text(pascal: Seq<char>, fields: Seq<FieldInfo>) -> Seq<char> {
    let create_fields = crate::text::spec_join(
        fields.map_values(|f: FieldInfo| spec_dto_create_line(f.name@, f.rust_type@)),
        "\n"@,
    );
    let update_fields = crate::text::spec_join(
        fields.map_values(|f: FieldInfo| spec_dto_update_line(f.name@, f.rust_type@)),
        "\n"@,
    );
    let extra = if spec_any_needs_prelude(fields) {
        "use rapina::sea_orm::prelude::*;\n"@
    } else {
        Seq::<char>::empty()
    };
    "use rapina::schemars::{self, JsonSchema};\nuse serde::Deserialize;\n"@ + extra
        + "\n#[derive(Deserialize, JsonSchema)]\npub struct Create"@ + pascal + " {\n"@
        + create_fields + "\n}\n\n#[derive(Deserialize, JsonSchema)]\npub struct Update"@ + pascal
        + " {\n"@ + update_fields + "\n}\n"@
}

fn any_needs_prelude(fields: &Vec<FieldInfo>) -> (r: bool)
    ensures
        r == spec_any_needs_prelude(fields@),
{
    let n = fields.len();
    let mut i: usize = 0;
    proof {
        assert(fields@.skip(0) =~= fields@);
    }
    while i < n
        invariant
            i <= n,
            n == fields@.len(),
            spec_any_needs_prelude(fields@.skip(i as int)) == spec_any_needs_prelude(fields@),
        decreases n - i,
    {
        proof {
            assert(fields@.skip(i as int)[0] == fields@[i as int]);
            assert(fields@.skip(i as int).skip(1) =~= fields@.skip(i + 1));
        }
        let t = fields[i].rust_type.as_str();
        if crate::text::str_eq(t, "Uuid") || crate::text::str_eq(t, "DateTimeUtc")
            || crate::text::str_eq(t, "Date") || crate::text::str_eq(t, "Decimal")
            || crate::text::str_eq(t, "Json") {
            return true;
        }
        i = i + 1;
    }
    proof {
        assert(fields@.skip(n as int) =~= Seq::<FieldInfo>::empty());
    }
    false
}

fn build_dto_lines(fields: &Vec<FieldInfo>, update: bool) -> (r: String)
    ensures
        !update ==> r@ == crate::text::spec_join(
            fields@.map_values(|f: FieldInfo| spec_dto_create_line(f.name@, f.rust_type@)),
            "\n"@,
        ),
        update ==> r@ == crate::text::spec_join(
            fields@.map_values(|f: FieldInfo| spec_dto_update_line(f.name@, f.rust_type@)),
            "\n"@,
        ),
{
    let ghost lspec = if update {
        fields@.map_values(|f: FieldInfo| spec_dto_update_line(f.name@, f.rust_type@))
    } else {
        fields@.map_values(|f: FieldInfo| spec_dto_create_line(f.name@, f.rust_type@))
    };
    let mut lines: Vec<String> = Vec::new();
    let mut i: usize = 0;
    proof {
        assert(lines@.map_values(|l: String| l@) =~= lspec.take(0));
    }
    while i < fields.len()
        invariant
            i <= fields@.len(),
            lspec == (if update {
                fields@.map_values(|f: FieldInfo| spec_dto_update_line(f.name@, f.rust_type@))
            } else {
                fields@.map_values(|f: FieldInfo| spec_dto_create_line(f.name@, f.rust_type@))
            }),
            lines@.map_values(|l: String| l@) == lspec.take(i as int),
        decreases fields@.len() - i,
    {
        let mut line = String::new();
        if update {
            line.append("    pub ");
            line.append(fields[i].name.as_str());
            line.append(": Option<");
            line.append(fields[i].rust_type.as_str());
            line.append(">,");
            proof {
                assert(line@ =~= spec_dto_update_line(
                    fields@[i as int].name@,
                    fields@[i as int].rust_type@,
                ));
            }
        } else {
            line.append("    pub ");
            line.append(fields[i].name.as_str());
            line.append(": ");
            line.append(fields[i].rust_type.as_str());
            line.append(",");
            proof {
                assert(line@ =~= spec_dto_create_line(
                    fields@[i as int].name@,
                    fields@[i as int].rust_type@,
                ));
            }
        }
        let ghost prev = lines@;
        lines.push(line);
        proof {
            assert(prev.map_values(|l: String| l@).len() == lspec.take(i as int).len());
            assert(prev.len() == i);
            assert forall|j: int| 0 <= j <= i implies lines@.map_values(|l: String| l@)[j]
                == #[trigger] lspec.take(i + 1)[j] by {
                if j < i {
                    assert(prev.map_values(|l: String| l@)[j] == lspec.take(i as int)[j]);
                    assert(lines@[j] == prev[j]);
                } else {
                    assert(lines@[j] == line);
                }
            }
            assert(lines@.map_values(|l: String| l@) =~= lspec.take(i + 1));
        }
        i = i + 1;
    }
    proof {
        assert(lspec.take(fields@.len() as int) =~= lspec);
    }
    crate::text::join_strings(&lines, "\n")
}

/// The DTO file for one resource.
pub fn generate_dto(pascal: &str, fields: &Vec<FieldInfo>) -> (r: String)
    ensures
        r@ == spec_dto_text(pascal@, fields@),
{
    let create_fields = build_dto_lines(fields, false);
    let update_fields = build_dto_lines(fields, true);
    let mut out = String::new();
    out.append("use rapina::schemars::{self, JsonSchema};\nuse serde::Deserialize;\n");
    if any_needs_prelude(fields) {
        out.append("use rapina::sea_orm::prelude::*;\n");
    }
    out.append("\n#[derive(Deserialize, JsonSchema)]\npub struct Create");
    out.append(pascal);
    out.append(" {\n");
    out.append(create_fields.as_str());
    out.append("\n}\n\n#[derive(Deserialize, JsonSchema)]\npub struct Update");
    out.append(pascal);
    out.append(" {\n");
    out.append(update_fields.as_str());
    out.append("\n}\n");
    proof {
        assert(out@ =~= spec_dto_text(pascal@, fields@));
    }
    out
}

// ---------------------------------------------------------------------
// Error template
// ---------------------------------------------------------------------

/// The error file for a resource: one enum over the database error,
/// with its conversions and documentation.
pub open spec fn spec_error_text(p: Seq<char>) -> Seq<char> {
    "use rapina::database::DbError;\nuse rapina::prelude::*;\n\npub enum "@ + p
        + "Error {\n    DbError(DbError),\n}\n\nimpl IntoApiError for "@ + p
        + "Error {\n    fn into_api_error(self) -> Error {\n        match self {\n            "@
        + p
        + "Error::DbError(e) => e.into_api_error(),\n        }\n    }\n}\n\nimpl DocumentedError for "@
        + p
        + "Error {\n    fn error_variants() -> Vec<ErrorVariant> {\n        vec![\n            ErrorVariant {\n                status: 404,\n                code: \"NOT_FOUND\",\n                description: \""@
        + p
        + " not found\",\n            },\n            ErrorVariant {\n                status: 500,\n                code: \"DATABASE_ERROR\",\n                description: \"Database operation failed\",\n            },\n        ]\n    }\n}\n\nimpl From<DbError> for "@
        + p + "Error {\n    fn from(e: DbError) -> Self {\n        "@ + p
        + "Error::DbError(e)\n    }\n}\n"@
}

/// The error file for one resource.
pub fn generate_error(pascal: &str) -> (r: String)
    ensures
        r@ == spec_error_text(pascal@),
{
    let mut out = String::new();
    out.append("use rapina::database::DbError;\nuse rapina::prelude::*;\n\npub enum ");
    out.append(pascal);
    out.append("Error {\n    DbError(DbError),\n}\n\nimpl IntoApiError for ");
    out.append(pascal);
    out.append("Error {\n    fn into_api_error(self) -> Error {\n        match self {\n            ");
    out.append(pascal);
    out.append(
        "Error::DbError(e) => e.into_api_error(),\n        }\n    }\n}\n\nimpl DocumentedError for ",
    );
    out.append(pascal);
    out.append(
        "Error {\n    fn error_variants() -> Vec<ErrorVariant> {\n        vec![\n            ErrorVariant {\n                status: 404,\n                code: \"NOT_FOUND\",\n                description: \"",
    );
    out.append(pascal);
    out.append(
        " not found\",\n            },\n            ErrorVariant {\n                status: 500,\n                code: \"DATABASE_ERROR\",\n                description: \"Database operation failed\",\n            },\n        ]\n    }\n}\n\nimpl From<DbError> for ",
    );
    out.append(pascal);
    out.append("Error {\n    fn from(e: DbError) -> Self {\n        ");
    out.append(pascal);
    out.append("Error::DbError(e)\n    }\n}\n");
    proof {
        assert(out@ =~= spec_error_text(pascal@));
    }
    out
}

// ---------------------------------------------------------------------
// Schema block template
// ---------------------------------------------------------------------

/// One field of a schema block.
pub open spec fn spec_schema_field_line(n: Seq<char>, st: Seq<char>) -> Seq<char> {
    "        "@ + n + ": "@ + st + ","@
}

/// The timestamps attribute of a schema block, when one is asked for.
pub open spec fn spec_schema_attr(ts: Option<Seq<char>>) -> Seq<char> {
    match ts {
        Option::None => Seq::<char>::empty(),
        Option::Some(t) => "\n    #[timestamps("@ + t + ")]\n"@,
    }
}

/// The view of an optional borrowed string.
pub open spec fn spec_opt_str_view(ts: Option<&str>) -> Option<Seq<char>> {
    match ts {
        Option::None => Option::None,
        Option::Some(t) => Option::Some(t@),
    }
}

/// A schema block declaring one entity with its fields, and a
/// timestamps attribute when one is asked for.
pub open spec fn spec_schema_block_text(
    pascal: Seq<char>,
    fields: Seq<FieldInfo>,
    ts: Option<Seq<char>>,
) -> Seq<char> {
    let body = crate::text::spec_join(
        fields.map_values(|f: FieldInfo| spec_schema_field_line(f.name@, f.schema_type@)),
        "\n"@,
    );
    "\nschema! {\n    "@ + pascal + " {"@ + spec_schema_attr(ts) + "\n"@ + body + "\n    }\n}\n"@
}

fn build_schema_lines(fields: &Vec<FieldInfo>) -> (r: String)
    ensures
        r@ == crate::text::spec_join(
            fields@.map_values(|f: FieldInfo| spec_schema_field_line(f.name@, f.schema_type@)),
            "\n"@,
        ),
{
    let ghost lspec = fields@.map_values(
        |f: FieldInfo| spec_schema_field_line(f.name@, f.schema_type@),
    );
    let mut lines: Vec<String> = Vec::new();
    let mut i: usize = 0;
    proof {
        assert(lines@.map_values(|l: String| l@) =~= lspec.take(0));
    }
    while i < fields.len()
        invariant
            i <= fields@.len(),
            lspec == fields@.map_values(
                |f: FieldInfo| spec_schema_field_line(f.name@, f.schema_type@),
            ),
            lines@.map_values(|l: String| l@) == lspec.take(i as int),
        decreases fields@.len() - i,
    {
        let mut line = String::new();
        line.append("        ");
        line.append(fields[i].name.as_str());
        line.append(": ");
        line.append(fields[i].schema_type.as_str());
        line.append(",");
        proof {
            assert(line@ =~= spec_schema_field_line(
                fields@[i as int].name@,
                fields@[i as int].schema_type@,
            ));
        }
        let ghost prev = lines@;
        lines.push(line);
        proof {
            assert(prev.map_values(|l: String| l@).len() == lspec.take(i as int).len());
            assert(prev.len() == i);
            assert forall|j: int| 0 <= j <= i implies lines@.map_values(|l: String| l@)[j]
                == #[trigger] lspec.take(i + 1)[j] by {
                if j < i {
                    assert(prev.map_values(|l: String| l@)[j] == lspec.take(i as int)[j]);
                    assert(lines@[j] == prev[j]);
                } else {
                    assert(lines@[j] == line);
                }
            }
            assert(lines@.map_values(|l: String| l@) =~= lspec.take(i + 1));
        }
        i = i + 1;
    }
    proof {
        assert(lspec.take(fields@.len() as int) =~= lspec);
    }
    crate::text::join_strings(&lines, "\n")
}

/// A schema block for one entity, appended to the entity file.
pub fn generate_schema_block(pascal: &str, fields: &Vec<FieldInfo>, timestamps: Option<&str>) -> (r:
    String)
    ensures
        r@ == spec_schema_block_text(pascal@, fields@, spec_opt_str_view(timestamps)),
{
    let body = build_schema_lines(fields);
    let mut out = String::new();
    out.append("\nschema! {\n    ");
    out.append(pascal);
    out.append(" {");
    match timestamps {
        Some(t) => {
            out.append("\n    #[timestamps(");
            out.append(t);
            out.append(")]\n");
        },
        None => {},
    }
    out.append("\n");
    out.append(body.as_str());
    out.append("\n    }\n}\n");
    proof {
        assert(out@ =~= spec_schema_block_text(pascal@, fields@, spec_opt_str_view(timestamps)));
    }
    out
}

// ---------------------------------------------------------------------
// Migration template
// ---------------------------------------------------------------------

/// One column definition of the migration's create-table call.
pub open spec fn spec_column_line(pp: Seq<char>, iden: Seq<char>, col: Seq<char>) -> Seq<char> {
    "                    .col(ColumnDef::new("@ + pp + "::"@ + iden + ")"@ + col + ")"@
}

/// One variant of the migration's identifier enum.
pub open spec fn spec_iden_line(iden: Seq<char>) -> Seq<char> {
    "    "@ + iden + ","@
}

/// The migration file for a resource's table: a create-table with an
/// auto-increment id and one column per field, and the drop-table.
pub open spec fn spec_migration_text(
    plural: Seq<char>,
    pp: Seq<char>,
    fields: Seq<FieldInfo>,
) -> Seq<char> {
    let column_defs = crate::text::spec_join(
        fields.map_values(
            |f: FieldInfo| spec_column_line(pp, spec_pascal(f.name@), f.column_method@),
        ),
        "\n"@,
    );
    let iden_variants = crate::text::spec_join(
        fields.map_values(|f: FieldInfo| spec_iden_line(spec_pascal(f.name@))),
        "\n"@,
    );
    "//! Migration: create "@ + plural
        + "\n\nuse rapina::sea_orm_migration;\nuse rapina::migration::prelude::*;\n\n#[derive(DeriveMigrationName)]\npub struct Migration;\n\n#[async_trait]\nimpl MigrationTrait for Migration {\n    async fn up(&self, manager: &SchemaManager) -> Result<(), DbErr> {\n        manager\n            .create_table(\n                Table::create()\n                    .table("@
        + pp
        + "::Table)\n                    .col(\n                        ColumnDef::new("@ + pp
        + "::Id)\n                            .integer()\n                            .not_null()\n                            .auto_increment()\n                            .primary_key(),\n                    )\n"@
        + column_defs
        + "\n                    .to_owned(),\n            )\n            .await\n    }\n\n    async fn down(&self, manager: &SchemaManager) -> Result<(), DbErr> {\n        manager\n            .drop_table(Table::drop().table("@
        + pp
        + "::Table).to_owned())\n            .await\n    }\n}\n\n#[derive(DeriveIden)]\nenum "@
        + pp + " {\n    Table,\n    Id,\n"@ + iden_variants + "\n}\n"@
}

fn build_column_defs(pp: &str, fields: &Vec<FieldInfo>) -> (r: String)
    ensures
        r@ == crate::text::spec_join(
            fields@.map_values(
                |f: FieldInfo| spec_column_line(pp@, spec_pascal(f.name@), f.column_method@),
            ),
            "\n"@,
        ),
{
    let ghost lspec = fields@.map_values(
        |f: FieldInfo| spec_column_line(pp@, spec_pascal(f.name@), f.column_method@),
    );
    let mut lines: Vec<String> = Vec::new();
    let mut i: usize = 0;
    proof {
        assert(lines@.map_values(|l: String| l@) =~= lspec.take(0));
    }
    while i < fields.len()
        invariant
            i <= fields@.len(),
            lspec == fields@.map_values(
                |f: FieldInfo| spec_column_line(pp@, spec_pascal(f.name@), f.column_method@),
            ),
            lines@.map_values(|l: String| l@) == lspec.take(i as int),
        decreases fields@.len() - i,
    {
        let iden = to_pascal_case(fields[i].name.as_str());
        let mut line = String::new();
        line.append("                    .col(ColumnDef::new(");
        line.append(pp);
        line.append("::");
        line.append(iden.as_str());
        line.append(")");
        line.append(fields[i].column_method.as_str());
        line.append(")");
        proof {
            assert(line@ =~= spec_column_line(
                pp@,
                spec_pascal(fields@[i as int].name@),
                fields@[i as int].column_method@,
            ));
        }
        let ghost prev = lines@;
        lines.push(line);
        proof {
            assert(prev.map_values(|l: String| l@).len() == lspec.take(i as int).len());
            assert(prev.len() == i);
            assert forall|j: int| 0 <= j <= i implies lines@.map_values(|l: String| l@)[j]
                == #[trigger] lspec.take(i + 1)[j] by {
                if j < i {
                    assert(prev.map_values(|l: String| l@)[j] == lspec.take(i as int)[j]);
                    assert(lines@[j] == prev[j]);
                } else {
                    assert(lines@[j] == line);
                }
            }
            assert(lines@.map_values(|l: String| l@) =~= lspec.take(i + 1));
        }
        i = i + 1;
    }
    proof {
        assert(lspec.take(fields@.len() as int) =~= lspec);
    }
    crate::text::join_strings(&lines, "\n")
}

fn build_iden_variants(fields: &Vec<FieldInfo>) -> (r: String)
    ensures
        r@ == crate::text::spec_join(
            fields@.map_values(|f: FieldInfo| spec_iden_line(spec_pascal(f.name@))),
            "\n"@,
        ),
{
    let ghost lspec = fields@.map_values(|f: FieldInfo| spec_iden_line(spec_pascal(f.name@)));
    let mut lines: Vec<String> = Vec::new();
    let mut i: usize = 0;
    proof {
        assert(lines@.map_values(|l: String| l@) =~= lspec.take(0));
    }
    while i < fields.len()
        invariant
            i <= fields@.len(),
            lspec == fields@.map_values(|f: FieldInfo| spec_iden_line(spec_pascal(f.name@))),
            lines@.map_values(|l: String| l@) == lspec.take(i as int),
        decreases fields@.len() - i,
    {
        let iden = to_pascal_case(fields[i].name.as_str());
        let mut line = String::new();
        line.append("    ");
        line.append(iden.as_str());
        line.append(",");
        proof {
            assert(line@ =~= spec_iden_line(spec_pascal(fields@[i as int].name@)));
        }
        let ghost prev = lines@;
        lines.push(line);
        proof {
            assert(prev.map_values(|l: String| l@).len() == lspec.take(i as int).len());
            assert(prev.len() == i);
            assert forall|j: int| 0 <= j <= i implies lines@.map_values(|l: String| l@)[j]
                == #[trigger] lspec.take(i + 1)[j] by {
                if j < i {
                    assert(prev.map_values(|l: String| l@)[j] == lspec.take(i as int)[j]);
                    assert(lines@[j] == prev[j]);
                } else {
                    assert(lines@[j] == line);
                }
            }
            assert(lines@.map_values(|l: String| l@) =~= lspec.take(i + 1));
        }
        i = i + 1;
    }
    proof {
        assert(lspec.take(fields@.len() as int) =~= lspec);
    }
    crate::text::join_strings(&lines, "\n")
}

/// The migration file for one resource's table.
pub fn generate_migration(plural: &str, pascal_plural: &str, fields: &Vec<FieldInfo>) -> (r: String)
    ensures
        r@ == spec_migration_text(plural@, pascal_plural@, fields@),
{
    let column_defs = build_column_defs(pascal_plural, fields);
    let iden_variants = build_iden_variants(fields);
    let mut out = String::new();
    out.append("//! Migration: create ");
    out.append(plural);
    out.append(
        "\n\nuse rapina::sea_orm_migration;\nuse rapina::migration::prelude::*;\n\n#[derive(DeriveMigrationName)]\npub struct Migration;\n\n#[async_trait]\nimpl MigrationTrait for Migration {\n    async fn up(&self, manager: &SchemaManager) -> Result<(), DbErr> {\n        manager\n            .create_table(\n                Table::create()\n                    .table(",
    );
    out.append(pascal_plural);
    out.append("::Table)\n                    .col(\n                        ColumnDef::new(");
    out.append(pascal_plural);
    out.append(
        "::Id)\n                            .integer()\n                            .not_null()\n                            .auto_increment()\n                            .primary_key(),\n                    )\n",
    );
    out.append(column_defs.as_str());
    out.append(
        "\n                    .to_owned(),\n            )\n            .await\n    }\n\n    async fn down(&self, manager: &SchemaManager) -> Result<(), DbErr> {\n        manager\n            .drop_table(Table::drop().table(",
    );
    out.append(pascal_plural);
    out.append(
        "::Table).to_owned())\n            .await\n    }\n}\n\n#[derive(DeriveIden)]\nenum ",
    );
    out.append(pascal_plural);
    out.append(" {\n    Table,\n    Id,\n");
    out.append(iden_variants.as_str());
    out.append("\n}\n");
    proof {
        assert(out@ =~= spec_migration_text(plural@, pascal_plural@, fields@));
    }
    out
}

} // verus!
