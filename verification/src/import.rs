//! Database import: the intermediate representation of introspected
//! tables and the pure rules that turn it into scaffolding input.
//!
//! The database drivers hand over tables as plain names, columns and
//! keys; everything after that point — type mapping, table
//! validation, relationship resolution, timestamp detection — is
//! decided here.

use vstd::prelude::*;

use crate::codegen::{spec_has_suffix, spec_pascal, spec_singularize, FieldInfo};
use crate::text::str_eq;

verus! {

/// A column type reduced to the forms the scaffolder knows.
#[derive(Debug)]
pub enum NormalizedType {
    Str,
    Text,
    I32,
    I64,
    F32,
    F64,
    Bool,
    Uuid,
    DateTimeUtc,
    NaiveDateTime,
    Date,
    Decimal,
    Json,
    /// A database type with no scaffolding equivalent, by its name.
    Unmappable(String),
}

/// One introspected column.
pub struct IntrospectedColumn {
    pub name: String,
    pub col_type: NormalizedType,
    pub is_nullable: bool,
}

/// One introspected foreign key.
pub struct IntrospectedForeignKey {
    pub columns: Vec<String>,
    pub referenced_table: String,
    pub referenced_columns: Vec<String>,
}

/// One introspected table.
pub struct IntrospectedTable {
    pub name: String,
    pub columns: Vec<IntrospectedColumn>,
    pub primary_key_columns: Vec<String>,
    pub foreign_keys: Vec<IntrospectedForeignKey>,
}

// ---------------------------------------------------------------------
// Column conversion
// ---------------------------------------------------------------------

/// The rust type, schema type and column builder for a normalized
/// type, when it has a scaffolding equivalent.
pub open spec fn spec_norm_entry(t: NormalizedType) -> Option<(Seq<char>, Seq<char>, Seq<char>)> {
    match t {
        NormalizedType::Str => Option::Some(("String"@, "String"@, ".string()"@)),
        NormalizedType::Text => Option::Some(("String"@, "Text"@, ".text()"@)),
        NormalizedType::I32 => Option::Some(("i32"@, "i32"@, ".integer()"@)),
        NormalizedType::I64 => Option::Some(("i64"@, "i64"@, ".big_integer()"@)),
        NormalizedType::F32 => Option::Some(("f32"@, "f32"@, ".float()"@)),
        NormalizedType::F64 => Option::Some(("f64"@, "f64"@, ".double()"@)),
        NormalizedType::Bool => Option::Some(("bool"@, "bool"@, ".boolean()"@)),
        NormalizedType::Uuid => Option::Some(("Uuid"@, "Uuid"@, ".uuid()"@)),
        NormalizedType::DateTimeUtc => Option::Some(
            ("DateTimeUtc"@, "DateTime"@, ".timestamp_with_time_zone()"@),
        ),
        NormalizedType::NaiveDateTime => Option::Some(
            ("DateTime"@, "NaiveDateTime"@, ".date_time()"@),
        ),
        NormalizedType::Date => Option::Some(("Date"@, "Date"@, ".date()"@)),
        NormalizedType::Decimal => Option::Some(("Decimal"@, "Decimal"@, ".decimal()"@)),
        NormalizedType::Json => Option::Some(("Json"@, "Json"@, ".json()"@)),
        NormalizedType::Unmappable(_) => Option::None,
    }
}

/// The null suffix a column's nullability adds.
pub open spec fn spec_null_suffix(is_nullable: bool) -> Seq<char> {
    if is_nullable {
        ".null()"@
    } else {
        ".not_null()"@
    }
}

/// Converts one introspected column to scaffolding input, or nothing
/// when its type has no equivalent.
pub fn normalized_to_field_info(col_name: &str, col_type: &NormalizedType, is_nullable: bool) -> (r:
    Option<FieldInfo>)
    ensures
        match r {
            Some(f) => {
                &&& spec_norm_entry(*col_type) == Option::Some(
                    (f.rust_type@, f.schema_type@, spec_col_base(f.column_method@, is_nullable)),
                )
                &&& f.name@ == col_name@
                &&& spec_has_suffix(f.column_method@, spec_null_suffix(is_nullable))
            },
            None => spec_norm_entry(*col_type) is None,
        },
{
    let entry: Option<(&str, &str, &str)> = match col_type {
        NormalizedType::Str => Some(("String", "String", ".string()")),
        NormalizedType::Text => Some(("String", "Text", ".text()")),
        NormalizedType::I32 => Some(("i32", "i32", ".integer()")),
        NormalizedType::I64 => Some(("i64", "i64", ".big_integer()")),
        NormalizedType::F32 => Some(("f32", "f32", ".float()")),
        NormalizedType::F64 => Some(("f64", "f64", ".double()")),
        NormalizedType::Bool => Some(("bool", "bool", ".boolean()")),
        NormalizedType::Uuid => Some(("Uuid", "Uuid", ".uuid()")),
        NormalizedType::DateTimeUtc => Some(
            ("DateTimeUtc", "DateTime", ".timestamp_with_time_zone()"),
        ),
        NormalizedType::NaiveDateTime => Some(("DateTime", "NaiveDateTime", ".date_time()")),
        NormalizedType::Date => Some(("Date", "Date", ".date()")),
        NormalizedType::Decimal => Some(("Decimal", "Decimal", ".decimal()")),
        NormalizedType::Json => Some(("Json", "Json", ".json()")),
        NormalizedType::Unmappable(_) => None,
    };
    match entry {
        Some((rt, st, base)) => {
            let mut cm = base.to_owned();
            if is_nullable {
                cm.append(".null()");
            } else {
                cm.append(".not_null()");
            }
            proof {
                assert(cm@.take(cm@.len() - spec_null_suffix(is_nullable).len()) =~= base@);
                assert(cm@.skip(cm@.len() - spec_null_suffix(is_nullable).len())
                    =~= spec_null_suffix(is_nullable));
            }
            Some(
                FieldInfo {
                    name: col_name.to_owned(),
                    rust_type: rt.to_owned(),
                    schema_type: st.to_owned(),
                    column_method: cm,
                },
            )
        },
        None => None,
    }
}

/// The column builder with the null suffix removed again: what the
/// type contributed.
pub open spec fn spec_col_base(cm: Seq<char>, is_nullable: bool) -> Seq<char> {
    cm.take(cm.len() - spec_null_suffix(is_nullable).len())
}

// ---------------------------------------------------------------------
// Timestamp detection
// ---------------------------------------------------------------------

/// Whether some column bears a name.
pub open spec fn spec_has_col(cols: Seq<IntrospectedColumn>, name: Seq<char>) -> bool
    decreases cols.len(),
{
    if cols.len() == 0 {
        false
    } else {
        cols[0].name@ == name || spec_has_col(cols.skip(1), name)
    }
}

fn has_col(cols: &Vec<IntrospectedColumn>, name: &str) -> (r: bool)
    ensures
        r == spec_has_col(cols@, name@),
{
    let n = cols.len();
    let mut i: usize = 0;
    proof {
        assert(cols@.skip(0) =~= cols@);
    }
    while i < n
        invariant
            i <= n,
            n == cols@.len(),
            spec_has_col(cols@.skip(i as int), name@) == spec_has_col(cols@, name@),
        decreases n - i,
    {
        proof {
            assert(cols@.skip(i as int)[0] == cols@[i as int]);
            assert(cols@.skip(i as int).skip(1) =~= cols@.skip(i + 1));
        }
        if str_eq(cols[i].name.as_str(), name) {
            return true;
        }
        i = i + 1;
    }
    proof {
        assert(cols@.skip(n as int) =~= Seq::<IntrospectedColumn>::empty());
    }
    false
}

/// Which timestamps attribute an imported table needs: none when
/// both timestamp columns exist (the default), otherwise the one
/// that exists, or `none` when neither does.
pub fn detect_timestamps(table: &IntrospectedTable) -> (r: Option<&'static str>)
    ensures
        ({
            let c = spec_has_col(table.columns@, "created_at"@);
            let u = spec_has_col(table.columns@, "updated_at"@);
            match r {
                None => c && u,
                Some(s) => !(c && u) && s@ == (if c {
                    "created_at"@
                } else if u {
                    "updated_at"@
                } else {
                    "none"@
                }),
            }
        }),
{
    let has_created = has_col(&table.columns, "created_at");
    let has_updated = has_col(&table.columns, "updated_at");
    if has_created && has_updated {
        None
    } else if has_created {
        Some("created_at")
    } else if has_updated {
        Some("updated_at")
    } else {
        Some("none")
    }
}

// ---------------------------------------------------------------------
// Database address classification
// ---------------------------------------------------------------------

/// The database kind a connection address names.
#[derive(PartialEq, Eq, Structural, Clone, Copy, Debug)]
pub enum DbUrlKind {
    Postgres,
    MySql,
    Sqlite,
    /// No scheme the importer supports.
    Unsupported,
}

/// Whether a string begins with a prefix.
pub open spec fn spec_has_prefix(s: Seq<char>, pre: Seq<char>) -> bool {
    s.len() >= pre.len() && s.take(pre.len() as int) == pre
}

fn has_prefix(s: &str, pre: &str) -> (r: bool)
    ensures
        r == spec_has_prefix(s@, pre@),
{
    let slen = s.unicode_len();
    let plen = pre.unicode_len();
    if slen < plen {
        return false;
    }
    let head = s.substring_char(0, plen);
    proof {
        assert(head@ =~= s@.take(pre@.len() as int));
    }
    str_eq(head, pre)
}

/// The database kind of a connection address, by its scheme.
pub open spec fn spec_db_url_kind(url: Seq<char>) -> DbUrlKind {
    if spec_has_prefix(url, "postgres://"@) || spec_has_prefix(url, "postgresql://"@) {
        DbUrlKind::Postgres
    } else if spec_has_prefix(url, "mysql://"@) || spec_has_prefix(url, "mariadb://"@) {
        DbUrlKind::MySql
    } else if spec_has_prefix(url, "sqlite://"@) || spec_has_prefix(url, "sqlite:"@) {
        DbUrlKind::Sqlite
    } else {
        DbUrlKind::Unsupported
    }
}

/// Classifies a connection address by its scheme.
pub fn database_url_kind(url: &str) -> (r: DbUrlKind)
    ensures
        r == spec_db_url_kind(url@),
{
    proof {
        reveal_strlit("postgres://");
        reveal_strlit("postgresql://");
        reveal_strlit("mysql://");
        reveal_strlit("mariadb://");
        reveal_strlit("sqlite://");
        reveal_strlit("sqlite:");
    }
    if has_prefix(url, "postgres://") || has_prefix(url, "postgresql://") {
        DbUrlKind::Postgres
    } else if has_prefix(url, "mysql://") || has_prefix(url, "mariadb://") {
        DbUrlKind::MySql
    } else if has_prefix(url, "sqlite://") || has_prefix(url, "sqlite:") {
        DbUrlKind::Sqlite
    } else {
        DbUrlKind::Unsupported
    }
}

/// The index after the last slash of a string: where the final
/// segment begins.
pub open spec fn spec_after_last_slash(s: Seq<char>) -> int
    decreases s.len(),
{
    if s.len() == 0 {
        0
    } else if s.last() == '/' {
        s.len() as int
    } else {
        spec_after_last_slash(s.drop_last())
    }
}

/// The schema name a database address implies when none is given:
/// the text after its last slash, or the whole address without one.
pub fn mysql_default_schema(url: &str) -> (r: String)
    ensures
        r@ == url@.skip(spec_after_last_slash(url@)),
{
    let len = url.unicode_len();
    let mut b: usize = len;
    proof {
        assert(url@.take(len as int) =~= url@);
    }
    while b > 0 && url.get_char(b - 1) != '/'
        invariant
            b <= len,
            len == url@.len(),
            spec_after_last_slash(url@.take(b as int)) == spec_after_last_slash(url@),
            forall|j: int| b <= j < len ==> url@[j] != '/',
        decreases b,
    {
        proof {
            let t = url@.take(b as int);
            assert(t.last() == url@[b - 1]);
            assert(t.drop_last() =~= url@.take(b - 1));
        }
        b = b - 1;
    }
    proof {
        let t = url@.take(b as int);
        if b == 0 {
            assert(t =~= Seq::<char>::empty());
        } else {
            assert(t.last() == url@[b - 1]);
        }
        assert(spec_after_last_slash(url@) == b);
    }
    let tail = url.substring_char(b, len);
    proof {
        assert(tail@ =~= url@.skip(b as int));
    }
    tail.to_owned()
}

// ---------------------------------------------------------------------
// Table filtering and validation
// ---------------------------------------------------------------------

/// Whether a name is on a list.
pub open spec fn spec_name_listed(list: Seq<String>, name: Seq<char>) -> bool
    decreases list.len(),
{
    if list.len() == 0 {
        false
    } else {
        list[0]@ == name || spec_name_listed(list.skip(1), name)
    }
}

fn name_listed(list: &Vec<String>, name: &str) -> (r: bool)
    ensures
        r == spec_name_listed(list@, name@),
{
    let n = list.len();
    let mut i: usize = 0;
    proof {
        assert(list@.skip(0) =~= list@);
    }
    while i < n
        invariant
            i <= n,
            n == list@.len(),
            spec_name_listed(list@.skip(i as int), name@) == spec_name_listed(list@, name@),
        decreases n - i,
    {
        proof {
            assert(list@.skip(i as int)[0] == list@[i as int]);
            assert(list@.skip(i as int).skip(1) =~= list@.skip(i + 1));
        }
        if str_eq(list[i].as_str(), name) {
            return true;
        }
        i = i + 1;
    }
    proof {
        assert(list@.skip(n as int) =~= Seq::<String>::empty());
    }
    false
}

/// The type of the first column named `id`, if one exists.
pub open spec fn spec_id_col_type(cols: Seq<IntrospectedColumn>) -> Option<NormalizedType>
    decreases cols.len(),
{
    if cols.len() == 0 {
        Option::None
    } else if cols[0].name@ == "id"@ {
        Option::Some(cols[0].col_type)
    } else {
        spec_id_col_type(cols.skip(1))
    }
}

fn id_col_is_i32(cols: &Vec<IntrospectedColumn>) -> (r: bool)
    ensures
        r == (match spec_id_col_type(cols@) {
            Option::None => true,
            Option::Some(t) => t is I32,
        }),
{
    let n = cols.len();
    let mut i: usize = 0;
    proof {
        assert(cols@.skip(0) =~= cols@);
    }
    while i < n
        invariant
            i <= n,
            n == cols@.len(),
            spec_id_col_type(cols@.skip(i as int)) == spec_id_col_type(cols@),
        decreases n - i,
    {
        proof {
            assert(cols@.skip(i as int)[0] == cols@[i as int]);
            assert(cols@.skip(i as int).skip(1) =~= cols@.skip(i + 1));
        }
        if str_eq(cols[i].name.as_str(), "id") {
            return match &cols[i].col_type {
                NormalizedType::I32 => true,
                _ => false,
            };
        }
        i = i + 1;
    }
    proof {
        assert(cols@.skip(n as int) =~= Seq::<IntrospectedColumn>::empty());
    }
    true
}

/// Whether an imported table is kept: not an internal migration
/// table, not underscore-prefixed, on the user's filter when one is
/// given, and holding a primary key the scaffolder can express — a
/// single key must be an `i32` column named `id`.
pub open spec fn spec_keep_table(t: IntrospectedTable, filter: Option<Vec<String>>) -> bool {
    &&& t.name@ != "seaql_migrations"@
    &&& t.name@ != "sqlx_migrations"@
    &&& t.name@ != "__diesel_schema_migrations"@
    &&& !(t.name@.len() > 0 && t.name@[0] == '_')
    &&& (match filter {
        Option::None => true,
        Option::Some(f) => spec_name_listed(f@, t.name@),
    })
    &&& t.primary_key_columns@.len() > 0
    &&& (t.primary_key_columns@.len() == 1 ==> t.primary_key_columns@[0]@ == "id"@ && (
    match spec_id_col_type(t.columns@) {
        Option::None => true,
        Option::Some(ty) => ty is I32,
    }))
}

/// The kept tables, in their incoming order.
pub open spec fn spec_filter_tables(
    ts: Seq<IntrospectedTable>,
    filter: Option<Vec<String>>,
) -> Seq<IntrospectedTable>
    decreases ts.len(),
{
    if ts.len() == 0 {
        Seq::empty()
    } else {
        let rest = spec_filter_tables(ts.skip(1), filter);
        if spec_keep_table(ts[0], filter) {
            seq![ts[0]] + rest
        } else {
            rest
        }
    }
}

fn keep_table(t: &IntrospectedTable, filter: &Option<Vec<String>>) -> (r: bool)
    ensures
        r == spec_keep_table(*t, *filter),
{
    proof {
        reveal_strlit("seaql_migrations");
        reveal_strlit("sqlx_migrations");
        reveal_strlit("__diesel_schema_migrations");
        reveal_strlit("id");
    }
    let name = t.name.as_str();
    if str_eq(name, "seaql_migrations") || str_eq(name, "sqlx_migrations") || str_eq(
        name,
        "__diesel_schema_migrations",
    ) {
        return false;
    }
    if name.unicode_len() > 0 && name.get_char(0) == '_' {
        return false;
    }
    match filter {
        Some(f) => {
            if !name_listed(f, name) {
                return false;
            }
        },
        None => {},
    }
    if t.primary_key_columns.len() == 0 {
        return false;
    }
    if t.primary_key_columns.len() == 1 {
        if !str_eq(t.primary_key_columns[0].as_str(), "id") {
            return false;
        }
        if !id_col_is_i32(&t.columns) {
            return false;
        }
    }
    true
}

/// Keeps only the tables the scaffolder can import, in order.
pub fn filter_and_validate_tables(
    tables: Vec<IntrospectedTable>,
    table_filter: Option<Vec<String>>,
) -> (r: Vec<IntrospectedTable>)
    ensures
        r@ == spec_filter_tables(tables@, table_filter),
{
    let ghost orig = tables@;
    let mut input = tables;
    let mut out: Vec<IntrospectedTable> = Vec::new();
    proof {
        assert(Seq::<IntrospectedTable>::empty() + spec_filter_tables(orig, table_filter)
            =~= spec_filter_tables(orig, table_filter));
    }
    while input.len() > 0
        invariant
            spec_filter_tables(orig, table_filter) == out@ + spec_filter_tables(
                input@,
                table_filter,
            ),
        decreases input@.len(),
    {
        let ghost rem = input@;
        let ghost outv = out@;
        let t = input.remove(0);
        proof {
            assert(input@ =~= rem.skip(1));
            assert(t == rem[0]);
        }
        if keep_table(&t, &table_filter) {
            out.push(t);
            proof {
                assert(outv + (seq![rem[0]] + spec_filter_tables(rem.skip(1), table_filter))
                    =~= out@ + spec_filter_tables(rem.skip(1), table_filter));
            }
        }
    }
    proof {
        assert(spec_filter_tables(input@, table_filter) =~= Seq::<IntrospectedTable>::empty());
        assert(out@ + Seq::<IntrospectedTable>::empty() =~= out@);
    }
    out
}

// ---------------------------------------------------------------------
// Relationship resolution
// ---------------------------------------------------------------------

/// Which side of a foreign key a relationship describes.
#[derive(PartialEq, Eq, Structural, Clone, Copy, Debug)]
pub enum RelationKind {
    /// The table holding the key belongs to the referenced table.
    BelongsTo,
    /// The referenced table has many of the holding table.
    HasMany,
}

/// One resolved relationship of a table.
pub struct RelationshipInfo {
    pub field_name: String,
    pub related_pascal: String,
    pub kind: RelationKind,
}

/// The resolved relationships, grouped by table name in the order
/// the tables first gained one.
pub struct RelationshipMap {
    pub entries: Vec<(String, Vec<RelationshipInfo>)>,
}

/// The view of one relationship.
pub open spec fn rel_view(r: RelationshipInfo) -> (Seq<char>, Seq<char>, RelationKind) {
    (r.field_name@, r.related_pascal@, r.kind)
}

/// The view of a relationship list.
pub open spec fn rels_view(rs: Seq<RelationshipInfo>) -> Seq<(Seq<char>, Seq<char>, RelationKind)> {
    rs.map_values(|r: RelationshipInfo| rel_view(r))
}

/// The view of the whole map.
pub open spec fn map_view(es: Seq<(String, Vec<RelationshipInfo>)>) -> Seq<
    (Seq<char>, Seq<(Seq<char>, Seq<char>, RelationKind)>),
> {
    es.map_values(|e: (String, Vec<RelationshipInfo>)| (e.0@, rels_view(e.1@)))
}

/// Appends a relationship under a key: to the key's existing entry,
/// or to a fresh entry at the end.
pub open spec fn spec_add_rel(
    m: Seq<(Seq<char>, Seq<(Seq<char>, Seq<char>, RelationKind)>)>,
    key: Seq<char>,
    rel: (Seq<char>, Seq<char>, RelationKind),
) -> Seq<(Seq<char>, Seq<(Seq<char>, Seq<char>, RelationKind)>)>
    decreases m.len(),
{
    if m.len() == 0 {
        seq![(key, seq![rel])]
    } else if m[0].0 == key {
        seq![(m[0].0, m[0].1.push(rel))] + m.skip(1)
    } else {
        seq![m[0]] + spec_add_rel(m.skip(1), key, rel)
    }
}

proof fn lemma_add_rel_at(
    m: Seq<(Seq<char>, Seq<(Seq<char>, Seq<char>, RelationKind)>)>,
    key: Seq<char>,
    rel: (Seq<char>, Seq<char>, RelationKind),
    i: int,
)
    requires
        0 <= i < m.len(),
        m[i].0 == key,
        forall|j: int| 0 <= j < i ==> (#[trigger] m[j]).0 != key,
    ensures
        spec_add_rel(m, key, rel) == m.update(i, (m[i].0, m[i].1.push(rel))),
    decreases i,
{
    if i == 0 {
        assert(spec_add_rel(m, key, rel) =~= m.update(0, (m[0].0, m[0].1.push(rel))));
    } else {
        assert forall|j: int| 0 <= j < i - 1 implies (#[trigger] m.skip(1)[j]).0 != key by {
            assert(m.skip(1)[j] == m[j + 1]);
        }
        assert(m.skip(1)[i - 1] == m[i]);
        lemma_add_rel_at(m.skip(1), key, rel, i - 1);
        assert(seq![m[0]] + m.skip(1).update(i - 1, (m[i].0, m[i].1.push(rel))) =~= m.update(
            i,
            (m[i].0, m[i].1.push(rel)),
        ));
    }
}

proof fn lemma_add_rel_absent(
    m: Seq<(Seq<char>, Seq<(Seq<char>, Seq<char>, RelationKind)>)>,
    key: Seq<char>,
    rel: (Seq<char>, Seq<char>, RelationKind),
)
    requires
        forall|j: int| 0 <= j < m.len() ==> (#[trigger] m[j]).0 != key,
    ensures
        spec_add_rel(m, key, rel) == m.push((key, seq![rel])),
    decreases m.len(),
{
    if m.len() == 0 {
        assert(spec_add_rel(m, key, rel) =~= m.push((key, seq![rel])));
    } else {
        assert forall|j: int| 0 <= j < m.skip(1).len() implies (#[trigger] m.skip(1)[j]).0
            != key by {
            assert(m.skip(1)[j] == m[j + 1]);
        }
        lemma_add_rel_absent(m.skip(1), key, rel);
        assert(seq![m[0]] + m.skip(1).push((key, seq![rel])) =~= m.push((key, seq![rel])));
    }
}

impl RelationshipMap {
    fn add(&mut self, key: &str, field_name: String, related_pascal: String, kind: RelationKind)
        ensures
            map_view(final(self).entries@) == spec_add_rel(
                map_view(old(self).entries@),
                key@,
                (field_name@, related_pascal@, kind),
            ),
    {
        let ghost mv = map_view(self.entries@);
        let ghost rv = (field_name@, related_pascal@, kind);
        let rel = RelationshipInfo { field_name, related_pascal, kind };
        let n = self.entries.len();
        let mut i: usize = 0;
        while i < n
            invariant
                i <= n,
                *self == *old(self),
                mv == map_view(self.entries@),
                rel_view(rel) == rv,
                rv == (field_name@, related_pascal@, kind),
                n == self.entries@.len(),
                forall|j: int| 0 <= j < i ==> (#[trigger] mv[j]).0 != key@,
            decreases n - i,
        {
            proof {
                assert(mv[i as int] == (self.entries@[i as int].0@, rels_view(
                    self.entries@[i as int].1@,
                )));
            }
            if str_eq(self.entries[i].0.as_str(), key) {
                let ghost oldent = self.entries@[i as int];
                let mut e = self.entries.remove(i);
                e.1.push(rel);
                self.entries.insert(i, e);
                proof {
                    assert(self.entries@ =~= old(self).entries@.update(
                        i as int,
                        self.entries@[i as int],
                    ));
                    lemma_add_rel_at(mv, key@, rv, i as int);
                    let nv = self.entries@[i as int].1@;
                    assert(nv == oldent.1@.push(rel));
                    assert forall|k: int| 0 <= k < nv.len() implies rels_view(nv)[k]
                        == #[trigger] rels_view(oldent.1@).push(rv)[k] by {
                        if k < oldent.1@.len() {
                            assert(nv[k] == oldent.1@[k]);
                            assert(rels_view(oldent.1@)[k] == rel_view(oldent.1@[k]));
                        } else {
                            assert(nv[k] == rel);
                        }
                    }
                    assert(rels_view(nv) =~= rels_view(oldent.1@).push(rv));
                    assert(mv[i as int] == (oldent.0@, rels_view(oldent.1@)));
                    assert forall|k: int| 0 <= k < self.entries@.len() implies map_view(
                        self.entries@,
                    )[k] == #[trigger] mv.update(
                        i as int,
                        (mv[i as int].0, mv[i as int].1.push(rv)),
                    )[k] by {
                        if k != i {
                            assert(self.entries@[k] == old(self).entries@[k]);
                            assert(mv[k] == (old(self).entries@[k].0@, rels_view(
                                old(self).entries@[k].1@,
                            )));
                        }
                    }
                    assert(map_view(self.entries@) =~= mv.update(
                        i as int,
                        (mv[i as int].0, mv[i as int].1.push(rv)),
                    ));
                }
                return ;
            }
            i = i + 1;
        }
        let mut rl: Vec<RelationshipInfo> = Vec::new();
        rl.push(rel);
        let ghost keyv = key@;
        self.entries.push((key.to_owned(), rl));
        proof {
            lemma_add_rel_absent(mv, keyv, rv);
            assert(rels_view(self.entries@.last().1@) =~= seq![rv]);
            assert(map_view(self.entries@) =~= mv.push((keyv, seq![rv])));
        }
    }

    /// The relationships resolved for a table, if any.
    pub fn get<'a>(&'a self, name: &str) -> (r: Option<&'a Vec<RelationshipInfo>>)
        ensures
            match r {
                Some(v) => spec_map_get(map_view(self.entries@), name@) == Option::Some(
                    rels_view(v@),
                ),
                None => spec_map_get(map_view(self.entries@), name@) is None,
            },
    {
        let n = self.entries.len();
        let mut i: usize = 0;
        proof {
            assert(map_view(self.entries@).skip(0) =~= map_view(self.entries@));
        }
        while i < n
            invariant
                i <= n,
                n == self.entries@.len(),
                spec_map_get(map_view(self.entries@).skip(i as int), name@) == spec_map_get(
                    map_view(self.entries@),
                    name@,
                ),
            decreases n - i,
        {
            proof {
                assert(map_view(self.entries@).skip(i as int)[0] == map_view(self.entries@)[
                    i as int]);
                assert(map_view(self.entries@)[i as int] == (self.entries@[i as int].0@,
                rels_view(self.entries@[i as int].1@)));
                assert(map_view(self.entries@).skip(i as int).skip(1) =~= map_view(
                    self.entries@,
                ).skip(i + 1));
            }
            if str_eq(self.entries[i].0.as_str(), name) {
                return Some(&self.entries[i].1);
            }
            i = i + 1;
        }
        proof {
            assert(map_view(self.entries@).skip(n as int) =~= Seq::<
                (Seq<char>, Seq<(Seq<char>, Seq<char>, RelationKind)>),
            >::empty());
        }
        None
    }
}

/// The first entry under a key, if any.
pub open spec fn spec_map_get(
    m: Seq<(Seq<char>, Seq<(Seq<char>, Seq<char>, RelationKind)>)>,
    key: Seq<char>,
) -> Option<Seq<(Seq<char>, Seq<char>, RelationKind)>>
    decreases m.len(),
{
    if m.len() == 0 {
        Option::None
    } else if m[0].0 == key {
        Option::Some(m[0].1)
    } else {
        spec_map_get(m.skip(1), key)
    }
}

/// Whether some table bears a name.
pub open spec fn spec_table_known(ts: Seq<IntrospectedTable>, name: Seq<char>) -> bool
    decreases ts.len(),
{
    if ts.len() == 0 {
        false
    } else {
        ts[0].name@ == name || spec_table_known(ts.skip(1), name)
    }
}

fn table_known(ts: &Vec<IntrospectedTable>, name: &str) -> (r: bool)
    ensures
        r == spec_table_known(ts@, name@),
{
    let n = ts.len();
    let mut i: usize = 0;
    proof {
        assert(ts@.skip(0) =~= ts@);
    }
    while i < n
        invariant
            i <= n,
            n == ts@.len(),
            spec_table_known(ts@.skip(i as int), name@) == spec_table_known(ts@, name@),
        decreases n - i,
    {
        proof {
            assert(ts@.skip(i as int)[0] == ts@[i as int]);
            assert(ts@.skip(i as int).skip(1) =~= ts@.skip(i + 1));
        }
        if str_eq(ts[i].name.as_str(), name) {
            return true;
        }
        i = i + 1;
    }
    proof {
        assert(ts@.skip(n as int) =~= Seq::<IntrospectedTable>::empty());
    }
    false
}

/// The relationship field a foreign-key column names: the column
/// without its `_id` suffix, or the whole column.
pub open spec fn spec_fk_field(c: Seq<char>) -> Seq<char> {
    if spec_has_suffix(c, "_id"@) {
        c.take(c.len() - "_id"@.len())
    } else {
        c
    }
}

/// What one foreign key contributes: nothing unless its referenced
/// table is also imported and it has exactly one column; otherwise a
/// belongs-to on the holding table and a has-many on the referenced
/// one.
pub open spec fn spec_fk_step(
    m: Seq<(Seq<char>, Seq<(Seq<char>, Seq<char>, RelationKind)>)>,
    all: Seq<IntrospectedTable>,
    t: IntrospectedTable,
    fk: IntrospectedForeignKey,
) -> Seq<(Seq<char>, Seq<(Seq<char>, Seq<char>, RelationKind)>)> {
    if !spec_table_known(all, fk.referenced_table@) || fk.columns@.len() != 1 {
        m
    } else {
        let field = spec_fk_field(fk.columns@[0]@);
        let ref_pascal = spec_pascal(spec_singularize(fk.referenced_table@));
        let owner_pascal = spec_pascal(spec_singularize(t.name@));
        let m1 = spec_add_rel(m, t.name@, (field, ref_pascal, RelationKind::BelongsTo));
        spec_add_rel(m1, fk.referenced_table@, (t.name@, owner_pascal, RelationKind::HasMany))
    }
}

/// Folds one table's foreign keys, in order.
pub open spec fn spec_fks_fold(
    m: Seq<(Seq<char>, Seq<(Seq<char>, Seq<char>, RelationKind)>)>,
    all: Seq<IntrospectedTable>,
    t: IntrospectedTable,
    fks: Seq<IntrospectedForeignKey>,
) -> Seq<(Seq<char>, Seq<(Seq<char>, Seq<char>, RelationKind)>)>
    decreases fks.len(),
{
    if fks.len() == 0 {
        m
    } else {
        spec_fks_fold(spec_fk_step(m, all, t, fks[0]), all, t, fks.skip(1))
    }
}

/// Folds every table, in order.
pub open spec fn spec_tables_fold(
    m: Seq<(Seq<char>, Seq<(Seq<char>, Seq<char>, RelationKind)>)>,
    all: Seq<IntrospectedTable>,
    ts: Seq<IntrospectedTable>,
) -> Seq<(Seq<char>, Seq<(Seq<char>, Seq<char>, RelationKind)>)>
    decreases ts.len(),
{
    if ts.len() == 0 {
        m
    } else {
        spec_tables_fold(spec_fks_fold(m, all, ts[0], ts[0].foreign_keys@), all, ts.skip(1))
    }
}

/// What relationship resolution answers for a table set.
pub open spec fn spec_resolve(all: Seq<IntrospectedTable>) -> Seq<
    (Seq<char>, Seq<(Seq<char>, Seq<char>, RelationKind)>),
> {
    spec_tables_fold(Seq::empty(), all, all)
}

/// Resolves single-column foreign keys between imported tables into
/// belongs-to and has-many relationships, grouped by table name.
pub fn resolve_relationships(tables: &Vec<IntrospectedTable>) -> (r: RelationshipMap)
    ensures
        map_view(r.entries@) == spec_resolve(tables@),
{
    proof {
        reveal_strlit("_id");
    }
    let mut m = RelationshipMap { entries: Vec::new() };
    let n = tables.len();
    let mut i: usize = 0;
    proof {
        assert(map_view(m.entries@) =~= Seq::<
            (Seq<char>, Seq<(Seq<char>, Seq<char>, RelationKind)>),
        >::empty());
        assert(tables@.skip(0) =~= tables@);
    }
    while i < n
        invariant
            i <= n,
            n == tables@.len(),
            spec_tables_fold(map_view(m.entries@), tables@, tables@.skip(i as int))
                == spec_resolve(tables@),
        decreases n - i,
    {
        let fks = &tables[i].foreign_keys;
        let nf = fks.len();
        let mut j: usize = 0;
        proof {
            assert(tables@.skip(i as int)[0] == tables@[i as int]);
            assert(tables@.skip(i as int).skip(1) =~= tables@.skip(i + 1));
            assert(fks@.skip(0) =~= fks@);
        }
        while j < nf
            invariant
                j <= nf,
                i < n,
                n == tables@.len(),
                nf == tables@[i as int].foreign_keys@.len(),
                fks@ == tables@[i as int].foreign_keys@,
                spec_tables_fold(
                    spec_fks_fold(
                        map_view(m.entries@),
                        tables@,
                        tables@[i as int],
                        fks@.skip(j as int),
                    ),
                    tables@,
                    tables@.skip(i + 1),
                ) == spec_resolve(tables@),
            decreases nf - j,
        {
            proof {
                assert(fks@.skip(j as int)[0] == fks@[j as int]);
                assert(fks@.skip(j as int).skip(1) =~= fks@.skip(j + 1));
                reveal_strlit("_id");
            }
            let fk = &fks[j];
            let known = table_known(tables, fk.referenced_table.as_str());
            if known && fk.columns.len() == 1 {
                let c = &fk.columns[0];
                let clen = c.as_str().unicode_len();
                let field = if crate::codegen::has_suffix(c.as_str(), "_id") {
                    let stem = c.as_str().substring_char(0, clen - 3);
                    proof {
                        assert(stem@ =~= c@.take(c@.len() - 3));
                    }
                    stem.to_owned()
                } else {
                    c.clone()
                };
                let ref_sing = crate::codegen::singularize(fk.referenced_table.as_str());
                let ref_pascal = crate::codegen::to_pascal_case(ref_sing.as_str());
                let owner_sing = crate::codegen::singularize(tables[i].name.as_str());
                let owner_pascal = crate::codegen::to_pascal_case(owner_sing.as_str());
                m.add(tables[i].name.as_str(), field, ref_pascal, RelationKind::BelongsTo);
                m.add(
                    fk.referenced_table.as_str(),
                    tables[i].name.clone(),
                    owner_pascal,
                    RelationKind::HasMany,
                );
            }
            j = j + 1;
        }
        proof {
            assert(fks@.skip(nf as int) =~= Seq::<IntrospectedForeignKey>::empty());
        }
        i = i + 1;
    }
    proof {
        assert(tables@.skip(n as int) =~= Seq::<IntrospectedTable>::empty());
    }
    m
}

// ---------------------------------------------------------------------
// Per-table field assembly
// ---------------------------------------------------------------------

/// The view of one scaffolding field.
pub open spec fn spec_field_view(f: FieldInfo) -> (Seq<char>, Seq<char>, Seq<char>, Seq<char>) {
    (f.name@, f.rust_type@, f.schema_type@, f.column_method@)
}

/// Whether a column is left out of the generated fields: the
/// timestamps always, and the `id` column unless the key is
/// composite, where the key columns become ordinary fields.
pub open spec fn spec_skip_col(name: Seq<char>, composite: bool) -> bool {
    name == "created_at"@ || name == "updated_at"@ || (!composite && name == "id"@)
}

/// The generated fields of a table's columns, and how many columns
/// were dropped for want of a type equivalent.
pub open spec fn spec_table_fields(cols: Seq<IntrospectedColumn>, composite: bool) -> (
    Seq<(Seq<char>, Seq<char>, Seq<char>, Seq<char>)>,
    int,
)
    decreases cols.len(),
{
    if cols.len() == 0 {
        (Seq::empty(), 0)
    } else {
        let rest = spec_table_fields(cols.skip(1), composite);
        if spec_skip_col(cols[0].name@, composite) {
            rest
        } else {
            match spec_norm_entry(cols[0].col_type) {
                Option::None => (rest.0, rest.1 + 1),
                Option::Some(e) => (
                    seq![(cols[0].name@, e.0, e.1, e.2 + spec_null_suffix(cols[0].is_nullable))]
                        + rest.0,
                    rest.1,
                ),
            }
        }
    }
}

/// Assembles the scaffolding fields for one imported table: every
/// column but the key and timestamp columns, converted; columns
/// without an equivalent are counted as skipped.
pub fn fields_for_table(table: &IntrospectedTable) -> (r: (Vec<FieldInfo>, usize))
    ensures
        ({
            let composite = table.primary_key_columns@.len() > 1;
            let expect = spec_table_fields(table.columns@, composite);
            &&& r.0@.map_values(|f: FieldInfo| spec_field_view(f)) == expect.0
            &&& r.1 == expect.1
        }),
{
    let composite = table.primary_key_columns.len() > 1;
    let cols = &table.columns;
    let n = cols.len();
    let mut out: Vec<FieldInfo> = Vec::new();
    let mut skipped: usize = 0;
    let mut i: usize = 0;
    proof {
        assert(cols@.skip(0) =~= cols@);
        assert(out@.map_values(|f: FieldInfo| spec_field_view(f)) =~= Seq::<
            (Seq<char>, Seq<char>, Seq<char>, Seq<char>),
        >::empty());
        assert(Seq::<(Seq<char>, Seq<char>, Seq<char>, Seq<char>)>::empty() + spec_table_fields(
            cols@,
            composite,
        ).0 =~= spec_table_fields(cols@, composite).0);
    }
    while i < n
        invariant
            i <= n,
            n == cols@.len(),
            cols@ == table.columns@,
            composite == (table.primary_key_columns@.len() > 1),
            skipped <= i,
            spec_table_fields(cols@, composite).0 == out@.map_values(
                |f: FieldInfo| spec_field_view(f),
            ) + spec_table_fields(cols@.skip(i as int), composite).0,
            spec_table_fields(cols@, composite).1 == skipped + spec_table_fields(
                cols@.skip(i as int),
                composite,
            ).1,
        decreases n - i,
    {
        proof {
            assert(cols@.skip(i as int)[0] == cols@[i as int]);
            assert(cols@.skip(i as int).skip(1) =~= cols@.skip(i + 1));
            reveal_strlit("created_at");
            reveal_strlit("updated_at");
            reveal_strlit("id");
        }
        let col = &cols[i];
        let name = col.name.as_str();
        let skip_this = str_eq(name, "created_at") || str_eq(name, "updated_at") || (!composite
            && str_eq(name, "id"));
        if !skip_this {
            let ghost prev = out@.map_values(|f: FieldInfo| spec_field_view(f));
            match normalized_to_field_info(name, &col.col_type, col.is_nullable) {
                Some(f) => {
                    proof {
                        let sfx = spec_null_suffix(col.is_nullable);
                        assert(f.column_method@ =~= f.column_method@.take(
                            f.column_method@.len() - sfx.len(),
                        ) + f.column_method@.skip(f.column_method@.len() - sfx.len()));
                    }
                    let ghost fv = spec_field_view(f);
                    out.push(f);
                    proof {
                        assert(out@.map_values(|f: FieldInfo| spec_field_view(f)) =~= prev.push(
                            fv,
                        ));
                        assert(prev.push(fv) + spec_table_fields(cols@.skip(i + 1), composite).0
                            =~= prev + (seq![fv] + spec_table_fields(
                            cols@.skip(i + 1),
                            composite,
                        ).0));
                    }
                },
                None => {
                    skipped = skipped + 1;
                },
            }
        }
        i = i + 1;
    }
    proof {
        assert(cols@.skip(n as int) =~= Seq::<IntrospectedColumn>::empty());
        assert(out@.map_values(|f: FieldInfo| spec_field_view(f)) + Seq::<
            (Seq<char>, Seq<char>, Seq<char>, Seq<char>),
        >::empty() =~= out@.map_values(|f: FieldInfo| spec_field_view(f)));
    }
    (out, skipped)
}

} // verus!
