//! Semantic analysis of declarative entity definitions, and the
//! naming decisions of the code generated from them.
//!
//! An entity declares named fields; a field's type is a scalar, a
//! `Vec` of another entity (a has-many), or another entity itself (a
//! belongs-to). Analysis runs in two passes: collect every entity
//! name, then resolve each field against that registry and validate
//! the timestamps and primary-key attributes.

use vstd::prelude::*;

use crate::codegen::{spec_pascal, to_pascal_case as pascal_of_codegen};
use crate::text::str_eq;

verus! {

/// A scalar field type.
#[derive(PartialEq, Eq, Structural, Clone, Copy, Debug)]
pub enum ScalarType {
    Str,
    Text,
    I32,
    I64,
    F32,
    F64,
    Bool,
    Uuid,
    DateTimeUtc,
    NaiveDateTime,
    Date,
    Decimal,
    Json,
}

/// A field type as written: resolved only syntactically.
#[derive(Debug)]
pub enum RawFieldType {
    /// A scalar, possibly optional.
    Scalar { scalar: ScalarType, optional: bool },
    /// `Vec<T>`: a has-many if `T` is a declared entity.
    VecOf { inner: String },
    /// A bare name: a belongs-to if it is a declared entity.
    Unknown { name: String, optional: bool },
}

/// A field type after analysis.
#[derive(Debug)]
pub enum FieldType {
    Scalar { scalar: ScalarType, optional: bool },
    HasMany { target: String },
    BelongsTo { target: String, optional: bool },
}

/// The attributes an entity may carry.
#[derive(Debug)]
pub struct EntityAttrs {
    pub table_name: Option<String>,
    pub has_created_at: bool,
    pub has_updated_at: bool,
    pub primary_key: Option<Vec<String>>,
}

/// The attributes a field may carry.
#[derive(Debug)]
pub struct FieldAttrs {
    pub unique: bool,
    pub indexed: bool,
    pub column_name: Option<String>,
}

/// One declared field.
#[derive(Debug)]
pub struct FieldDef {
    pub attrs: FieldAttrs,
    pub name: String,
    pub ty: RawFieldType,
}

/// One declared entity.
#[derive(Debug)]
pub struct EntityDef {
    pub attrs: EntityAttrs,
    pub name: String,
    pub fields: Vec<FieldDef>,
}

/// A whole schema declaration.
#[derive(Debug)]
pub struct Schema {
    pub entities: Vec<EntityDef>,
}

/// A field with its type resolved.
#[derive(Debug)]
pub struct AnalyzedField {
    pub attrs: FieldAttrs,
    pub name: String,
    pub ty: FieldType,
}

/// An entity with every field resolved.
#[derive(Debug)]
pub struct AnalyzedEntity {
    pub attrs: EntityAttrs,
    pub name: String,
    pub fields: Vec<AnalyzedField>,
}

/// An analyzed schema.
#[derive(Debug)]
pub struct AnalyzedSchema {
    pub entities: Vec<AnalyzedEntity>,
}

/// Why a schema is rejected. `message` renders the exact diagnostic.
#[derive(Debug)]
pub enum SchemaError {
    /// Two entities share a name.
    DuplicateEntity { name: String },
    /// A declared timestamp field collides with an auto-generated one.
    TimestampCollision { field: String },
    /// A `Vec` names no declared entity.
    UnknownEntityInVec { name: String },
    /// A field type is neither scalar nor a declared entity.
    UnknownType { name: String },
    /// A primary-key column is not a field of its entity.
    PrimaryKeyColumnMissing { column: String, entity: String },
    /// A primary-key column is a relationship, not a scalar.
    PrimaryKeyNotScalar { column: String },
}

impl SchemaError {
    /// The diagnostic text of this error.
    pub fn message(&self) -> (r: String)
        ensures
            r@ == spec_error_message(self),
    {
        let mut out = String::new();
        match self {
            SchemaError::DuplicateEntity { name } => {
                out.append("duplicate entity name '");
                out.append(name.as_str());
                out.append("'");
            },
            SchemaError::TimestampCollision { field } => {
                out.append("field '");
                out.append(field.as_str());
                out.append("' is auto-generated. Use #[timestamps(none)] or #[timestamps(");
                if crate::text::str_eq(field.as_str(), "created_at") {
                    out.append("updated_at");
                } else {
                    out.append("created_at");
                }
                out.append(")] to declare it manually");
            },
            SchemaError::UnknownEntityInVec { name } => {
                out.append("unknown entity '");
                out.append(name.as_str());
                out.append("' in Vec<");
                out.append(name.as_str());
                out.append(">. Did you define this entity?");
            },
            SchemaError::UnknownType { name } => {
                out.append("unknown type '");
                out.append(name.as_str());
                out.append(
                    "'. Use a scalar type (String, i32, etc.) or reference a defined entity.",
                );
            },
            SchemaError::PrimaryKeyColumnMissing { column, entity } => {
                out.append("primary_key column '");
                out.append(column.as_str());
                out.append("' does not exist in entity '");
                out.append(entity.as_str());
                out.append("'");
            },
            SchemaError::PrimaryKeyNotScalar { column } => {
                out.append("primary_key column '");
                out.append(column.as_str());
                out.append("' must be a scalar type, not a relationship");
            },
        }
        proof {
            assert(out@ =~= spec_error_message(self));
        }
        out
    }
}

/// The diagnostic text of each schema error.
pub open spec fn spec_error_message(e: &SchemaError) -> Seq<char> {
    match e {
        SchemaError::DuplicateEntity { name } => "duplicate entity name '"@ + name@ + "'"@,
        SchemaError::TimestampCollision { field } => "field '"@ + field@
            + "' is auto-generated. Use #[timestamps(none)] or #[timestamps("@ + (if field@
            == "created_at"@ {
            "updated_at"@
        } else {
            "created_at"@
        }) + ")] to declare it manually"@,
        SchemaError::UnknownEntityInVec { name } => "unknown entity '"@ + name@ + "' in Vec<"@
            + name@ + ">. Did you define this entity?"@,
        SchemaError::UnknownType { name } => "unknown type '"@ + name@
            + "'. Use a scalar type (String, i32, etc.) or reference a defined entity."@,
        SchemaError::PrimaryKeyColumnMissing { column, entity } => "primary_key column '"@
            + column@ + "' does not exist in entity '"@ + entity@ + "'"@,
        SchemaError::PrimaryKeyNotScalar { column } => "primary_key column '"@ + column@
            + "' must be a scalar type, not a relationship"@,
    }
}

// ---------------------------------------------------------------------
// Entity registry
// ---------------------------------------------------------------------

/// The views of a list of names.
pub open spec fn spec_names_view(ns: Seq<String>) -> Seq<Seq<char>> {
    ns.map_values(|n: String| n@)
}

/// Whether a name is on a list.
pub open spec fn spec_listed(names: Seq<Seq<char>>, name: Seq<char>) -> bool
    decreases names.len(),
{
    if names.len() == 0 {
        false
    } else {
        names[0] == name || spec_listed(names.skip(1), name)
    }
}

/// The declared entity names of a schema, in order.
pub open spec fn spec_entity_names(es: Seq<EntityDef>) -> Seq<Seq<char>> {
    es.map_values(|e: EntityDef| e.name@)
}

/// The declared entity names, for cross-reference checks.
pub struct EntityRegistry {
    pub names: Vec<String>,
}

impl EntityRegistry {
    /// Collects the names of the declared entities, in order.
    pub fn new(entities: &Vec<EntityDef>) -> (r: EntityRegistry)
        ensures
            r.names@.map_values(|n: String| n@) == entities@.map_values(
                |e: EntityDef| e.name@,
            ),
    {
        let ghost target = entities@.map_values(|e: EntityDef| e.name@);
        let mut names: Vec<String> = Vec::new();
        let mut i: usize = 0;
        proof {
            assert(names@.map_values(|n: String| n@) =~= target.take(0));
        }
        while i < entities.len()
            invariant
                i <= entities@.len(),
                target == entities@.map_values(|e: EntityDef| e.name@),
                names@.map_values(|n: String| n@) == target.take(i as int),
            decreases entities@.len() - i,
        {
            let ghost prev = names@;
            names.push(entities[i].name.clone());
            proof {
                assert(prev.map_values(|n: String| n@).len() == target.take(i as int).len());
                assert forall|j: int| 0 <= j <= i implies names@.map_values(|n: String| n@)[j]
                    == #[trigger] target.take(i + 1)[j] by {
                    if j < i {
                        assert(prev.map_values(|n: String| n@)[j] == target.take(i as int)[j]);
                        assert(names@[j] == prev[j]);
                    } else {
                        assert(names@[j] == names@.last());
                    }
                }
                assert(names@.map_values(|n: String| n@) =~= target.take(i + 1));
            }
            i = i + 1;
        }
        proof {
            assert(target.take(entities@.len() as int) =~= target);
        }
        EntityRegistry { names }
    }

    /// Whether an entity of this name is declared.
    pub fn contains(&self, name: &str) -> (r: bool)
        ensures
            r == spec_listed(spec_names_view(self.names@), name@),
    {
        let ghost nv = spec_names_view(self.names@);
        let n = self.names.len();
        let mut i: usize = 0;
        proof {
            assert(nv.skip(0) =~= nv);
        }
        while i < n
            invariant
                i <= n,
                n == self.names@.len(),
                nv == spec_names_view(self.names@),
                spec_listed(nv.skip(i as int), name@) == spec_listed(nv, name@),
            decreases n - i,
        {
            proof {
                assert(nv.skip(i as int)[0] == nv[i as int]);
                assert(nv[i as int] == self.names@[i as int]@);
                assert(nv.skip(i as int).skip(1) =~= nv.skip(i + 1));
            }
            if str_eq(self.names[i].as_str(), name) {
                return true;
            }
            i = i + 1;
        }
        proof {
            assert(nv.skip(n as int) =~= Seq::<Seq<char>>::empty());
        }
        false
    }
}

// ---------------------------------------------------------------------
// Field and entity analysis
// ---------------------------------------------------------------------

/// How a raw field type resolves against the declared names, when
/// it does.
pub open spec fn spec_resolve_field(ty: RawFieldType, names: Seq<Seq<char>>) -> Option<FieldType> {
    match ty {
        RawFieldType::Scalar { scalar, optional } => Option::Some(
            FieldType::Scalar { scalar, optional },
        ),
        RawFieldType::VecOf { inner } => if spec_listed(names, inner@) {
            Option::Some(FieldType::HasMany { target: inner })
        } else {
            Option::None
        },
        RawFieldType::Unknown { name, optional } => if spec_listed(names, name@) {
            Option::Some(FieldType::BelongsTo { target: name, optional })
        } else {
            Option::None
        },
    }
}

/// Resolves one field: a scalar stands; a `Vec` of a declared entity
/// is a has-many; a declared entity name is a belongs-to; anything
/// else is an error naming the unknown type.
pub fn analyze_field(field: FieldDef, registry: &EntityRegistry) -> (r: Result<
    AnalyzedField,
    SchemaError,
>)
    ensures
        match r {
            Ok(af) => {
                &&& spec_resolve_field(field.ty, spec_names_view(registry.names@)) == Option::Some(af.ty)
                &&& af.name == field.name
                &&& af.attrs == field.attrs
            },
            Err(e) => {
                &&& spec_resolve_field(field.ty, spec_names_view(registry.names@)) is None
                &&& (match (field.ty, e) {
                    (
                        RawFieldType::VecOf { inner },
                        SchemaError::UnknownEntityInVec { name },
                    ) => name == inner,
                    (
                        RawFieldType::Unknown { name: n, optional: _ },
                        SchemaError::UnknownType { name },
                    ) => name == n,
                    _ => false,
                })
            },
        },
{
    let FieldDef { attrs, name, ty } = field;
    match ty {
        RawFieldType::Scalar { scalar, optional } => Ok(
            AnalyzedField { attrs, name, ty: FieldType::Scalar { scalar, optional } },
        ),
        RawFieldType::VecOf { inner } => {
            if registry.contains(inner.as_str()) {
                Ok(AnalyzedField { attrs, name, ty: FieldType::HasMany { target: inner } })
            } else {
                Err(SchemaError::UnknownEntityInVec { name: inner })
            }
        },
        RawFieldType::Unknown { name: tyname, optional } => {
            if registry.contains(tyname.as_str()) {
                Ok(
                    AnalyzedField {
                        attrs,
                        name,
                        ty: FieldType::BelongsTo { target: tyname, optional },
                    },
                )
            } else {
                Err(SchemaError::UnknownType { name: tyname })
            }
        },
    }
}

/// A declared field collides with an auto-generated timestamp.
pub open spec fn spec_ts_collision(fs: Seq<FieldDef>, attrs: EntityAttrs) -> bool
    decreases fs.len(),
{
    if fs.len() == 0 {
        false
    } else {
        ||| (fs[0].name@ == "created_at"@ && attrs.has_created_at)
        ||| (fs[0].name@ == "updated_at"@ && attrs.has_updated_at)
        ||| spec_ts_collision(fs.skip(1), attrs)
    }
}

proof fn lemma_ts_collision_at(fs: Seq<FieldDef>, attrs: EntityAttrs, i: int)
    requires
        0 <= i < fs.len(),
        (fs[i].name@ == "created_at"@ && attrs.has_created_at) || (fs[i].name@ == "updated_at"@
            && attrs.has_updated_at),
    ensures
        spec_ts_collision(fs, attrs),
    decreases i,
{
    if i > 0 {
        assert(fs.skip(1)[i - 1] == fs[i]);
        lemma_ts_collision_at(fs.skip(1), attrs, i - 1);
    }
}

/// One field and its analysis correspond.
pub open spec fn spec_field_match(fd: FieldDef, af: AnalyzedField, names: Seq<Seq<char>>) -> bool {
    &&& af.name == fd.name
    &&& af.attrs == fd.attrs
    &&& spec_resolve_field(fd.ty, names) == Option::Some(af.ty)
}

/// An entity and its analysis correspond: same name and attributes,
/// and every field resolved.
pub open spec fn spec_entity_analyzed(
    e: EntityDef,
    ae: AnalyzedEntity,
    names: Seq<Seq<char>>,
) -> bool {
    &&& ae.name == e.name
    &&& ae.attrs == e.attrs
    &&& ae.fields@.len() == e.fields@.len()
    &&& forall|j: int|
        0 <= j < e.fields@.len() ==> spec_field_match(e.fields@[j], #[trigger] ae.fields@[j], names)
}

/// Some analyzed field bears a name.
pub open spec fn spec_af_named(fs: Seq<AnalyzedField>, name: Seq<char>) -> bool
    decreases fs.len(),
{
    if fs.len() == 0 {
        false
    } else {
        fs[0].name@ == name || spec_af_named(fs.skip(1), name)
    }
}

/// Every primary-key column names a field.
pub open spec fn spec_pk_cols_exist(cols: Seq<String>, fs: Seq<AnalyzedField>) -> bool
    decreases cols.len(),
{
    if cols.len() == 0 {
        true
    } else {
        spec_af_named(fs, cols[0]@) && spec_pk_cols_exist(cols.skip(1), fs)
    }
}

/// Every field named by the primary key is a scalar.
pub open spec fn spec_pk_cols_scalar(fs: Seq<AnalyzedField>, cols: Seq<Seq<char>>) -> bool
    decreases fs.len(),
{
    if fs.len() == 0 {
        true
    } else {
        (spec_listed(cols, fs[0].name@) ==> fs[0].ty is Scalar) && spec_pk_cols_scalar(
            fs.skip(1),
            cols,
        )
    }
}

fn af_named(fs: &Vec<AnalyzedField>, name: &str) -> (r: bool)
    ensures
        r == spec_af_named(fs@, name@),
{
    let n = fs.len();
    let mut i: usize = 0;
    proof {
        assert(fs@.skip(0) =~= fs@);
    }
    while i < n
        invariant
            i <= n,
            n == fs@.len(),
            spec_af_named(fs@.skip(i as int), name@) == spec_af_named(fs@, name@),
        decreases n - i,
    {
        proof {
            assert(fs@.skip(i as int)[0] == fs@[i as int]);
            assert(fs@.skip(i as int).skip(1) =~= fs@.skip(i + 1));
        }
        if str_eq(fs[i].name.as_str(), name) {
            return true;
        }
        i = i + 1;
    }
    proof {
        assert(fs@.skip(n as int) =~= Seq::<AnalyzedField>::empty());
    }
    false
}

fn listed(names: &Vec<String>, name: &str) -> (r: bool)
    ensures
        r == spec_listed(spec_names_view(names@), name@),
{
    let ghost nv = spec_names_view(names@);
    let n = names.len();
    let mut i: usize = 0;
    proof {
        assert(nv.skip(0) =~= nv);
    }
    while i < n
        invariant
            i <= n,
            n == names@.len(),
            nv == spec_names_view(names@),
            spec_listed(nv.skip(i as int), name@) == spec_listed(nv, name@),
        decreases n - i,
    {
        proof {
            assert(nv.skip(i as int)[0] == nv[i as int]);
            assert(nv[i as int] == names@[i as int]@);
            assert(nv.skip(i as int).skip(1) =~= nv.skip(i + 1));
        }
        if str_eq(names[i].as_str(), name) {
            return true;
        }
        i = i + 1;
    }
    proof {
        assert(nv.skip(n as int) =~= Seq::<Seq<char>>::empty());
    }
    false
}

/// Some field does not resolve against the declared names.
pub open spec fn spec_some_unresolvable(fs: Seq<FieldDef>, names: Seq<Seq<char>>) -> bool
    decreases fs.len(),
{
    if fs.len() == 0 {
        false
    } else {
        spec_resolve_field(fs[0].ty, names) is None || spec_some_unresolvable(fs.skip(1), names)
    }
}

proof fn lemma_unresolvable_at(fs: Seq<FieldDef>, names: Seq<Seq<char>>, i: int)
    requires
        0 <= i < fs.len(),
        spec_resolve_field(fs[i].ty, names) is None,
    ensures
        spec_some_unresolvable(fs, names),
    decreases i,
{
    if i > 0 {
        assert(fs.skip(1)[i - 1] == fs[i]);
        lemma_unresolvable_at(fs.skip(1), names, i - 1);
    }
}

/// Some field declaration bears a name.
pub open spec fn spec_fd_named(fs: Seq<FieldDef>, name: Seq<char>) -> bool
    decreases fs.len(),
{
    if fs.len() == 0 {
        false
    } else {
        fs[0].name@ == name || spec_fd_named(fs.skip(1), name)
    }
}

proof fn lemma_named_iff(fds: Seq<FieldDef>, afs: Seq<AnalyzedField>, col: Seq<char>)
    requires
        fds.len() == afs.len(),
        forall|k: int| 0 <= k < fds.len() ==> (#[trigger] afs[k]).name@ == fds[k].name@,
    ensures
        spec_af_named(afs, col) == spec_fd_named(fds, col),
    decreases fds.len(),
{
    if fds.len() > 0 {
        assert forall|k: int| 0 <= k < fds.skip(1).len() implies (#[trigger] afs.skip(1)[k]).name@
            == fds.skip(1)[k].name@ by {
            assert(afs.skip(1)[k] == afs[k + 1]);
            assert(fds.skip(1)[k] == fds[k + 1]);
        }
        lemma_named_iff(fds.skip(1), afs.skip(1), col);
        assert(afs[0].name@ == fds[0].name@);
    }
}

proof fn lemma_listed_at(names: Seq<Seq<char>>, i: int)
    requires
        0 <= i < names.len(),
    ensures
        spec_listed(names, names[i]),
    decreases i,
{
    if i > 0 {
        assert(names.skip(1)[i - 1] == names[i]);
        lemma_listed_at(names.skip(1), i - 1);
    }
}

/// Some field named by the key resolves to a relationship.
pub open spec fn spec_field_nonscalar_named(
    fs: Seq<FieldDef>,
    names: Seq<Seq<char>>,
    column: Seq<char>,
) -> bool
    decreases fs.len(),
{
    if fs.len() == 0 {
        false
    } else {
        (fs[0].name@ == column && (match spec_resolve_field(fs[0].ty, names) {
            Option::Some(t) => !(t is Scalar),
            Option::None => false,
        })) || spec_field_nonscalar_named(fs.skip(1), names, column)
    }
}

proof fn lemma_nonscalar_at(fs: Seq<FieldDef>, names: Seq<Seq<char>>, column: Seq<char>, i: int)
    requires
        0 <= i < fs.len(),
        fs[i].name@ == column,
        match spec_resolve_field(fs[i].ty, names) {
            Option::Some(t) => !(t is Scalar),
            Option::None => false,
        },
    ensures
        spec_field_nonscalar_named(fs, names, column),
    decreases i,
{
    if i > 0 {
        assert(fs.skip(1)[i - 1] == fs[i]);
        lemma_nonscalar_at(fs.skip(1), names, column, i - 1);
    }
}

/// The condition under which an entity's analysis reports an error.
pub open spec fn spec_entity_error(
    en: EntityDef,
    names: Seq<Seq<char>>,
    e: SchemaError,
) -> bool {
    match e {
        SchemaError::TimestampCollision { field: _ } => spec_ts_collision(en.fields@, en.attrs),
        SchemaError::UnknownEntityInVec { name: _ } => spec_some_unresolvable(en.fields@, names),
        SchemaError::UnknownType { name: _ } => spec_some_unresolvable(en.fields@, names),
        SchemaError::PrimaryKeyColumnMissing { column, entity } => entity@ == en.name@ && (
        match en.attrs.primary_key {
            Option::Some(cols) => spec_listed(spec_names_view(cols@), column@)
                && !spec_fd_named(en.fields@, column@),
            Option::None => false,
        }),
        SchemaError::PrimaryKeyNotScalar { column } => (match en.attrs.primary_key {
            Option::Some(cols) => spec_listed(spec_names_view(cols@), column@),
            Option::None => false,
        }) && spec_field_nonscalar_named(en.fields@, names, column@),
        SchemaError::DuplicateEntity { name: _ } => false,
    }
}

/// Analyzes one entity: no declared field may collide with an
/// auto-generated timestamp, every field must resolve, and a custom
/// primary key may name only existing scalar fields.
pub fn analyze_entity(entity: EntityDef, registry: &EntityRegistry) -> (r: Result<
    AnalyzedEntity,
    SchemaError,
>)
    ensures
        match r {
            Ok(ae) => {
                &&& !spec_ts_collision(entity.fields@, entity.attrs)
                &&& spec_entity_analyzed(entity, ae, spec_names_view(registry.names@))
                &&& (match entity.attrs.primary_key {
                    Option::Some(cols) => spec_pk_cols_exist(cols@, ae.fields@)
                        && spec_pk_cols_scalar(ae.fields@, spec_names_view(cols@)),
                    Option::None => true,
                })
            },
            Err(e) => spec_entity_error(entity, spec_names_view(registry.names@), e),
        },
{
    let EntityDef { attrs, name, fields } = entity;
    let ghost fsview = fields@;
    // Timestamp collisions.
    let nf = fields.len();
    let mut i: usize = 0;
    proof {
        assert(fsview.skip(0) =~= fsview);
    }
    while i < nf
        invariant
            i <= nf,
            nf == fsview.len(),
            fields@ == fsview,
            fsview == entity.fields@,
            attrs == entity.attrs,
            spec_ts_collision(fsview.skip(i as int), attrs) == spec_ts_collision(fsview, attrs),
        decreases nf - i,
    {
        proof {
            assert(fsview.skip(i as int)[0] == fsview[i as int]);
            assert(fsview.skip(i as int).skip(1) =~= fsview.skip(i + 1));
        }
        let fname = fields[i].name.as_str();
        if str_eq(fname, "created_at") && attrs.has_created_at {
            proof {
                lemma_ts_collision_at(fsview, attrs, i as int);
            }
            return Err(SchemaError::TimestampCollision { field: "created_at".to_owned() });
        }
        if str_eq(fname, "updated_at") && attrs.has_updated_at {
            proof {
                lemma_ts_collision_at(fsview, attrs, i as int);
            }
            return Err(SchemaError::TimestampCollision { field: "updated_at".to_owned() });
        }
        i = i + 1;
    }
    proof {
        assert(fsview.skip(nf as int) =~= Seq::<FieldDef>::empty());
    }
    // Field resolution.
    let mut analyzed: Vec<AnalyzedField> = Vec::new();
    let mut input = fields;
    proof {
        assert(fsview.skip(0) =~= fsview);
    }
    while input.len() > 0
        invariant
            input@.len() <= fsview.len(),
            input@ == fsview.skip(fsview.len() - input@.len()),
            analyzed@.len() == fsview.len() - input@.len(),
            attrs == entity.attrs,
            name == entity.name,
            fsview == entity.fields@,
            forall|k: int|
                0 <= k < analyzed@.len() ==> spec_field_match(
                    fsview[k],
                    #[trigger] analyzed@[k],
                    spec_names_view(registry.names@),
                ),
        decreases input@.len(),
    {
        let ghost done = (fsview.len() - input@.len()) as int;
        let fd = input.remove(0);
        proof {
            assert(input@ =~= fsview.skip(done + 1));
            assert(fd == fsview[done]);
        }
        match analyze_field(fd, registry) {
            Ok(af) => {
                analyzed.push(af);
            },
            Err(e) => {
                proof {
                    lemma_unresolvable_at(fsview, spec_names_view(registry.names@), done);
                }
                return Err(e);
            },
        }
    }
    // Primary-key validation.
    match &attrs.primary_key {
        Some(cols) => {
            let nc = cols.len();
            let mut ci: usize = 0;
            proof {
                assert(cols@.skip(0) =~= cols@);
            }
            while ci < nc
                invariant
                    ci <= nc,
                    nc == cols@.len(),
                    attrs == entity.attrs,
                    name == entity.name,
                    attrs.primary_key == Option::Some(*cols),
                    analyzed@.len() == fsview.len(),
                    fsview == entity.fields@,
                    forall|k: int|
                        0 <= k < analyzed@.len() ==> spec_field_match(
                            fsview[k],
                            #[trigger] analyzed@[k],
                            spec_names_view(registry.names@),
                        ),
                    spec_pk_cols_exist(cols@.skip(ci as int), analyzed@) == spec_pk_cols_exist(
                        cols@,
                        analyzed@,
                    ),
                decreases nc - ci,
            {
                proof {
                    assert(cols@.skip(ci as int)[0] == cols@[ci as int]);
                    assert(cols@.skip(ci as int).skip(1) =~= cols@.skip(ci + 1));
                }
                if !af_named(&analyzed, cols[ci].as_str()) {
                    proof {
                        assert forall|k: int| 0 <= k < fsview.len() implies (
                        #[trigger] analyzed@[k]).name@ == fsview[k].name@ by {
                            assert(spec_field_match(
                                fsview[k],
                                analyzed@[k],
                                spec_names_view(registry.names@),
                            ));
                        }
                        lemma_named_iff(fsview, analyzed@, cols@[ci as int]@);
                        lemma_listed_at(spec_names_view(cols@), ci as int);
                        assert(spec_names_view(cols@)[ci as int] == cols@[ci as int]@);
                    }
                    return Err(
                        SchemaError::PrimaryKeyColumnMissing {
                            column: cols[ci].clone(),
                            entity: name,
                        },
                    );
                }
                ci = ci + 1;
            }
            proof {
                assert(cols@.skip(nc as int) =~= Seq::<String>::empty());
            }
            let na = analyzed.len();
            let mut ai: usize = 0;
            proof {
                assert(analyzed@.skip(0) =~= analyzed@);
            }
            while ai < na
                invariant
                    ai <= na,
                    na == analyzed@.len(),
                    attrs == entity.attrs,
                    name == entity.name,
                    attrs.primary_key == Option::Some(*cols),
                    analyzed@.len() == fsview.len(),
                    fsview == entity.fields@,
                    forall|k: int|
                        0 <= k < analyzed@.len() ==> spec_field_match(
                            fsview[k],
                            #[trigger] analyzed@[k],
                            spec_names_view(registry.names@),
                        ),
                    spec_pk_cols_exist(cols@, analyzed@),
                    spec_pk_cols_scalar(analyzed@.skip(ai as int), spec_names_view(cols@))
                        == spec_pk_cols_scalar(analyzed@, spec_names_view(cols@)),
                decreases na - ai,
            {
                proof {
                    assert(analyzed@.skip(ai as int)[0] == analyzed@[ai as int]);
                    assert(analyzed@.skip(ai as int).skip(1) =~= analyzed@.skip(ai + 1));
                }
                let in_pk = listed(cols, analyzed[ai].name.as_str());
                let is_scalar = match &analyzed[ai].ty {
                    FieldType::Scalar { .. } => true,
                    _ => false,
                };
                if in_pk && !is_scalar {
                    proof {
                        assert(spec_field_match(
                            fsview[ai as int],
                            analyzed@[ai as int],
                            spec_names_view(registry.names@),
                        ));
                        lemma_nonscalar_at(
                            fsview,
                            spec_names_view(registry.names@),
                            analyzed@[ai as int].name@,
                            ai as int,
                        );
                    }
                    return Err(
                        SchemaError::PrimaryKeyNotScalar { column: analyzed[ai].name.clone() },
                    );
                }
                ai = ai + 1;
            }
            proof {
                assert(analyzed@.skip(na as int) =~= Seq::<AnalyzedField>::empty());
            }
        },
        None => {},
    }
    Ok(AnalyzedEntity { attrs, name, fields: analyzed })
}

/// Two entities share a name somewhere in the list.
pub open spec fn spec_dup_entities(es: Seq<EntityDef>) -> bool
    decreases es.len(),
{
    if es.len() == 0 {
        false
    } else {
        spec_entity_named(es.skip(1), es[0].name@) || spec_dup_entities(es.skip(1))
    }
}

/// Some entity bears a name.
pub open spec fn spec_entity_named(es: Seq<EntityDef>, name: Seq<char>) -> bool
    decreases es.len(),
{
    if es.len() == 0 {
        false
    } else {
        es[0].name@ == name || spec_entity_named(es.skip(1), name)
    }
}

fn entity_named(es: &Vec<EntityDef>, from: usize, name: &str) -> (r: bool)
    requires
        from <= es@.len(),
    ensures
        r == spec_entity_named(es@.skip(from as int), name@),
{
    let n = es.len();
    let mut i: usize = from;
    while i < n
        invariant
            from <= i <= n,
            n == es@.len(),
            spec_entity_named(es@.skip(i as int), name@) == spec_entity_named(
                es@.skip(from as int),
                name@,
            ),
        decreases n - i,
    {
        proof {
            assert(es@.skip(i as int)[0] == es@[i as int]);
            assert(es@.skip(i as int).skip(1) =~= es@.skip(i + 1));
        }
        if str_eq(es[i].name.as_str(), name) {
            return true;
        }
        i = i + 1;
    }
    proof {
        assert(es@.skip(n as int) =~= Seq::<EntityDef>::empty());
    }
    false
}

/// Analyzes a whole schema: entity names must be distinct, and every
/// entity must pass its own analysis against the full registry.
pub fn analyze_schema(schema: Schema) -> (r: Result<AnalyzedSchema, SchemaError>)
    ensures
        match r {
            Ok(a) => {
                &&& !spec_dup_entities(schema.entities@)
                &&& a.entities@.len() == schema.entities@.len()
                &&& forall|k: int|
                    0 <= k < schema.entities@.len() ==> spec_entity_analyzed(
                        schema.entities@[k],
                        #[trigger] a.entities@[k],
                        spec_entity_names(schema.entities@),
                    )
            },
            Err(e) => {
                ||| (e is DuplicateEntity && spec_dup_entities(schema.entities@))
                ||| exists|k: int|
                    0 <= k < schema.entities@.len() && spec_entity_error(
                        #[trigger] schema.entities@[k],
                        spec_entity_names(schema.entities@),
                        e,
                    )
            },
        },
{
    let ghost esview = schema.entities@;
    let n = schema.entities.len();
    let mut i: usize = 0;
    proof {
        assert(esview.skip(0) =~= esview);
    }
    while i < n
        invariant
            i <= n,
            n == esview.len(),
            schema.entities@ == esview,
            !spec_dup_entities(esview) == !spec_dup_entities(esview.skip(i as int)),
        decreases n - i,
    {
        proof {
            assert(esview.skip(i as int)[0] == esview[i as int]);
            assert(esview.skip(i as int).skip(1) =~= esview.skip(i + 1));
        }
        if entity_named(&schema.entities, i + 1, schema.entities[i].name.as_str()) {
            return Err(
                SchemaError::DuplicateEntity { name: schema.entities[i].name.clone() },
            );
        }
        i = i + 1;
    }
    proof {
        assert(esview.skip(n as int) =~= Seq::<EntityDef>::empty());
    }
    let registry = EntityRegistry::new(&schema.entities);
    proof {
        assert(spec_names_view(registry.names@) =~= spec_entity_names(esview));
    }
    let mut analyzed: Vec<AnalyzedEntity> = Vec::new();
    let mut input = schema.entities;
    proof {
        assert(esview.skip(0) =~= esview);
    }
    #[verifier::loop_isolation(false)]
    while input.len() > 0
        invariant
            spec_names_view(registry.names@) == spec_entity_names(esview),
            input@.len() <= esview.len(),
            input@ == esview.skip(esview.len() - input@.len()),
            analyzed@.len() == esview.len() - input@.len(),
            forall|k: int|
                0 <= k < analyzed@.len() ==> spec_entity_analyzed(
                    esview[k],
                    #[trigger] analyzed@[k],
                    spec_entity_names(esview),
                ),
        decreases input@.len(),
    {
        let ghost done = (esview.len() - input@.len()) as int;
        let e = input.remove(0);
        proof {
            assert(input@ =~= esview.skip(done + 1));
            assert(e == esview[done]);
        }
        match analyze_entity(e, &registry) {
            Ok(ae) => {
                analyzed.push(ae);
            },
            Err(err) => {
                proof {
                    assert(spec_entity_error(esview[done], spec_entity_names(esview), err));
                    assert(exists|k: int|
                        0 <= k < esview.len() && spec_entity_error(
                            #[trigger] esview[k],
                            spec_entity_names(esview),
                            err,
                        ));

                }
                return Err(err);
            },
        }
    }
    Ok(AnalyzedSchema { entities: analyzed })
}


// ---------------------------------------------------------------------
// Naming decisions of the generated entity code
// ---------------------------------------------------------------------

/// The snake_case form of a name.
pub uninterp spec fn snake_of(s: Seq<char>) -> Seq<char>;

/// Relies on heck's ToSnakeCase for str: the snake_case form of a
/// name, a function of its characters alone.
#[verifier::external_body]
fn snake_case(s: &str) -> (r: String)
    ensures
        r@ == snake_of(s@),
{
    heck::ToSnakeCase::to_snake_case(s)
}

/// Converts a name to PascalCase.
pub fn to_pascal_case(s: &str) -> (r: String)
    ensures
        r@ == spec_pascal(s@),
{
    pascal_of_codegen(s)
}

/// The table name an entity maps to: its declared name, or its
/// snake_case form pluralized.
pub fn table_name_for(attrs: &EntityAttrs, name: &str) -> (r: String)
    ensures
        r@ == (match attrs.table_name {
            Option::Some(t) => t@,
            Option::None => snake_of(name@) + "s"@,
        }),
{
    match &attrs.table_name {
        Some(t) => t.clone(),
        None => {
            let mut s = snake_case(name);
            s.append("s");
            s
        },
    }
}

/// The foreign-key column a belongs-to field generates.
pub fn fk_column_name(field: &str) -> (r: String)
    ensures
        r@ == snake_of(field@) + "_id"@,
{
    let mut s = snake_case(field);
    s.append("_id");
    s
}

/// The path of the entity a relation points to.
pub fn related_entity_path(target: &str) -> (r: String)
    ensures
        r@ == "super::"@ + snake_of(target@) + "::Entity"@,
{
    let mut s = "super::".to_owned();
    let sn = snake_case(target);
    s.append(sn.as_str());
    s.append("::Entity");
    proof {
        assert(s@ =~= "super::"@ + snake_of(target@) + "::Entity"@);
    }
    s
}

/// The column a belongs-to relation joins from.
pub fn relation_from_column(field: &str) -> (r: String)
    ensures
        r@ == "Column::"@ + spec_pascal(snake_of(field@) + "_id"@),
{
    let mut s = "Column::".to_owned();
    let fkc = fk_column_name(field);
    let p = pascal_of_codegen(fkc.as_str());
    s.append(p.as_str());
    s
}

/// The column a belongs-to relation joins to.
pub fn relation_to_column(target: &str) -> (r: String)
    ensures
        r@ == "super::"@ + snake_of(target@) + "::Column::Id"@,
{
    let mut s = "super::".to_owned();
    let sn = snake_case(target);
    s.append(sn.as_str());
    s.append("::Column::Id");
    proof {
        assert(s@ =~= "super::"@ + snake_of(target@) + "::Column::Id"@);
    }
    s
}

/// Whether an analyzed entity holds a float scalar, which rules out
/// a structural equality derive on its model.
pub open spec fn spec_has_float_field(fs: Seq<AnalyzedField>) -> bool
    decreases fs.len(),
{
    if fs.len() == 0 {
        false
    } else {
        (match fs[0].ty {
            FieldType::Scalar { scalar, optional: _ } => scalar == ScalarType::F32 || scalar
                == ScalarType::F64,
            _ => false,
        }) || spec_has_float_field(fs.skip(1))
    }
}

/// Whether an entity has a float field.
pub fn has_float_field(e: &AnalyzedEntity) -> (r: bool)
    ensures
        r == spec_has_float_field(e.fields@),
{
    let n = e.fields.len();
    let mut i: usize = 0;
    proof {
        assert(e.fields@.skip(0) =~= e.fields@);
    }
    while i < n
        invariant
            i <= n,
            n == e.fields@.len(),
            spec_has_float_field(e.fields@.skip(i as int)) == spec_has_float_field(e.fields@),
        decreases n - i,
    {
        proof {
            assert(e.fields@.skip(i as int)[0] == e.fields@[i as int]);
            assert(e.fields@.skip(i as int).skip(1) =~= e.fields@.skip(i + 1));
        }
        let isf = match &e.fields[i].ty {
            FieldType::Scalar { scalar, optional: _ } => match scalar {
                ScalarType::F32 => true,
                ScalarType::F64 => true,
                _ => false,
            },
            _ => false,
        };
        if isf {
            return true;
        }
        i = i + 1;
    }
    proof {
        assert(e.fields@.skip(n as int) =~= Seq::<AnalyzedField>::empty());
    }
    false
}

/// The derives of a generated model: float fields lose the
/// structural equality derive.
pub fn entity_derives(has_floats: bool) -> (r: &'static str)
    ensures
        !has_floats ==> r@
            == "Clone, Debug, PartialEq, Eq, DeriveEntityModel, Serialize, Deserialize, JsonSchema"@,
        has_floats ==> r@
            == "Clone, Debug, PartialEq, DeriveEntityModel, Serialize, Deserialize, JsonSchema"@,
{
    if has_floats {
        "Clone, Debug, PartialEq, DeriveEntityModel, Serialize, Deserialize, JsonSchema"
    } else {
        "Clone, Debug, PartialEq, Eq, DeriveEntityModel, Serialize, Deserialize, JsonSchema"
    }
}


/// The attribute parts a generated model field carries: `unique` and
/// `indexed` when asked for, and the declared column name.
pub open spec fn spec_field_attr_parts(attrs: FieldAttrs) -> Seq<Seq<char>> {
    let base = if attrs.unique {
        seq!["unique"@]
    } else {
        Seq::<Seq<char>>::empty()
    };
    let with_index = if attrs.indexed {
        base + seq!["indexed"@]
    } else {
        base
    };
    match attrs.column_name {
        Option::Some(c) => with_index + seq!["column_name = \""@ + c@ + "\""@],
        Option::None => with_index,
    }
}

/// Assembles the attribute parts of one generated model field.
pub fn field_attr_parts(attrs: &FieldAttrs) -> (r: Vec<String>)
    ensures
        r@.map_values(|p: String| p@) == spec_field_attr_parts(*attrs),
{
    let mut out: Vec<String> = Vec::new();
    if attrs.unique {
        out.push("unique".to_owned());
    }
    if attrs.indexed {
        out.push("indexed".to_owned());
    }
    match &attrs.column_name {
        Some(c) => {
            let mut part = "column_name = \"".to_owned();
            part.append(c.as_str());
            part.append("\"");
            out.push(part);
        },
        None => {},
    }
    proof {
        assert(out@.map_values(|p: String| p@) =~= spec_field_attr_parts(*attrs));
    }
    out
}

} // verus!
