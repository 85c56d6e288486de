//! Validation and parsing for the resource scaffolding command:
//! `name:type` field arguments and resource names.

use vstd::prelude::*;

use crate::codegen::FieldInfo;
use crate::text::{
    push_char, spec_is_name_char, spec_lower, spec_trim, is_name_char, lower_string, str_eq,
    trim_str,
};

verus! {

/// The index of the first colon in a string, or -1.
pub open spec fn spec_colon_ix(s: Seq<char>) -> int
    decreases s.len(),
{
    if s.len() == 0 {
        -1
    } else if s[0] == ':' {
        0
    } else {
        let r = spec_colon_ix(s.skip(1));
        if r < 0 {
            -1
        } else {
            r + 1
        }
    }
}

proof fn lemma_colon_ix_at(s: Seq<char>, i: int)
    requires
        0 <= i < s.len(),
        s[i] == ':',
        forall|j: int| 0 <= j < i ==> s[j] != ':',
    ensures
        spec_colon_ix(s) == i,
    decreases i,
{
    if i > 0 {
        assert forall|j: int| 0 <= j < i - 1 implies s.skip(1)[j] != ':' by {
            assert(s.skip(1)[j] == s[j + 1]);
        }
        assert(s.skip(1)[i - 1] == s[i]);
        lemma_colon_ix_at(s.skip(1), i - 1);
    }
}

proof fn lemma_colon_ix_none(s: Seq<char>)
    requires
        forall|j: int| 0 <= j < s.len() ==> s[j] != ':',
    ensures
        spec_colon_ix(s) == -1,
    decreases s.len(),
{
    if s.len() > 0 {
        assert forall|j: int| 0 <= j < s.skip(1).len() implies s.skip(1)[j] != ':' by {
            assert(s.skip(1)[j] == s[j + 1]);
        }
        lemma_colon_ix_none(s.skip(1));
    }
}

/// Every character is acceptable in a name: ASCII lowercase, digit
/// or underscore.
pub open spec fn spec_name_ok(name: Seq<char>) -> bool {
    forall|i: int| 0 <= i < name.len() ==> spec_is_name_char(#[trigger] name[i])
}

/// The index of the first unacceptable character of a name, or -1.
pub open spec fn spec_first_bad(name: Seq<char>) -> int
    decreases name.len(),
{
    if name.len() == 0 {
        -1
    } else if !spec_is_name_char(name[0]) {
        0
    } else {
        let r = spec_first_bad(name.skip(1));
        if r < 0 {
            -1
        } else {
            r + 1
        }
    }
}

proof fn lemma_first_bad_at(s: Seq<char>, i: int)
    requires
        0 <= i < s.len(),
        !spec_is_name_char(s[i]),
        forall|j: int| 0 <= j < i ==> spec_is_name_char(#[trigger] s[j]),
    ensures
        spec_first_bad(s) == i,
    decreases i,
{
    if i > 0 {
        assert forall|j: int| 0 <= j < i - 1 implies spec_is_name_char(
            #[trigger] s.skip(1)[j],
        ) by {
            assert(s.skip(1)[j] == s[j + 1]);
        }
        assert(s.skip(1)[i - 1] == s[i]);
        lemma_first_bad_at(s.skip(1), i - 1);
    }
}

/// The rust type, schema type and column method for a known field
/// type name, already lowercased.
pub open spec fn spec_field_type_entry(t: Seq<char>) -> Option<(Seq<char>, Seq<char>, Seq<char>)> {
    if t == "string"@ {
        Option::Some(("String"@, "String"@, ".string().not_null()"@))
    } else if t == "text"@ {
        Option::Some(("String"@, "Text"@, ".text().not_null()"@))
    } else if t == "i32"@ || t == "integer"@ {
        Option::Some(("i32"@, "i32"@, ".integer().not_null()"@))
    } else if t == "i64"@ || t == "bigint"@ {
        Option::Some(("i64"@, "i64"@, ".big_integer().not_null()"@))
    } else if t == "f32"@ || t == "float"@ {
        Option::Some(("f32"@, "f32"@, ".float().not_null()"@))
    } else if t == "f64"@ || t == "double"@ {
        Option::Some(("f64"@, "f64"@, ".double().not_null()"@))
    } else if t == "bool"@ || t == "boolean"@ {
        Option::Some(("bool"@, "bool"@, ".boolean().not_null()"@))
    } else if t == "uuid"@ {
        Option::Some(("Uuid"@, "Uuid"@, ".uuid().not_null()"@))
    } else if t == "datetime"@ {
        Option::Some(("DateTimeUtc"@, "DateTime"@, ".date_time().not_null()"@))
    } else if t == "date"@ {
        Option::Some(("Date"@, "Date"@, ".date().not_null()"@))
    } else if t == "decimal"@ {
        Option::Some(("Decimal"@, "Decimal"@, ".decimal().not_null()"@))
    } else if t == "json"@ {
        Option::Some(("Json"@, "Json"@, ".json().not_null()"@))
    } else {
        Option::None
    }
}

/// The error text for an argument without a colon.
pub open spec fn spec_format_error(input: Seq<char>) -> Seq<char> {
    "Invalid field format '"@ + input + "'. Expected 'name:type' (e.g., 'title:string')"@
}

/// The error text for a name with a character outside its alphabet.
pub open spec fn spec_bad_name_error(name: Seq<char>) -> Seq<char> {
    "Field name must be lowercase alphanumeric with underscores, got '"@ + name + "'"@
}

/// The error text for an unknown type name.
pub open spec fn spec_unknown_type_error(traw: Seq<char>) -> Seq<char> {
    "Unknown field type '"@ + traw
        + "'. Supported types: string, text, i32/integer, i64/bigint, f32/float, f64/double, bool/boolean, uuid, datetime, date, decimal, json"@
}

fn find_colon(input: &str) -> (r: Option<usize>)
    ensures
        match r {
            Some(i) => i < input@.len() && input@[i as int] == ':' && forall|j: int|
                0 <= j < i ==> input@[j] != ':',
            None => forall|j: int| 0 <= j < input@.len() ==> input@[j] != ':',
        },
{
    let len = input.unicode_len();
    let mut ix: usize = 0;
    while ix < len
        invariant
            ix <= len,
            len == input@.len(),
            forall|j: int| 0 <= j < ix ==> input@[j] != ':',
        decreases len - ix,
    {
        if input.get_char(ix) == ':' {
            return Some(ix);
        }
        ix = ix + 1;
    }
    None
}

/// Parses one `name:type` field argument.
///
/// The part before the first colon, trimmed, must be a nonempty name
/// of lowercase letters, digits and underscores; the part after it,
/// trimmed and lowercased, must be a known type name. Each failure
/// carries its exact message.
pub fn parse_field(input: &str) -> (r: Result<FieldInfo, String>)
    ensures
        ({
            let ix = spec_colon_ix(input@);
            let name = spec_trim(input@.take(ix));
            let traw = spec_trim(input@.skip(ix + 1));
            let t = spec_lower(traw);
            match r {
                Ok(f) => {
                    &&& ix >= 0
                    &&& name.len() > 0
                    &&& spec_name_ok(name)
                    &&& f.name@ == name
                    &&& spec_field_type_entry(t) == Option::Some(
                        (f.rust_type@, f.schema_type@, f.column_method@),
                    )
                },
                Err(e) => {
                    if ix < 0 {
                        e@ == spec_format_error(input@)
                    } else if name.len() == 0 {
                        e@ == "Field name cannot be empty"@
                    } else if !spec_name_ok(name) {
                        e@ == spec_bad_name_error(name)
                    } else {
                        spec_field_type_entry(t) is None && e@ == spec_unknown_type_error(traw)
                    }
                },
            }
        }),
{
    let len = input.unicode_len();
    let ix = match find_colon(input) {
        Some(i) => {
            proof {
                lemma_colon_ix_at(input@, i as int);
            }
            i
        },
        None => {
            proof {
                lemma_colon_ix_none(input@);
            }
            let mut e = String::new();
            e.append("Invalid field format '");
            e.append(input);
            e.append("'. Expected 'name:type' (e.g., 'title:string')");
            proof {
                assert(e@ =~= spec_format_error(input@));
            }
            return Err(e);
        },
    };
    let head = input.substring_char(0, ix);
    let tail = input.substring_char(ix + 1, len);
    proof {
        assert(head@ =~= input@.take(ix as int));
        assert(tail@ =~= input@.skip(ix + 1));
    }
    let name = trim_str(head);
    let traw = trim_str(tail);
    let nlen = name.as_str().unicode_len();
    if nlen == 0 {
        return Err("Field name cannot be empty".to_owned());
    }
    let mut k: usize = 0;
    while k < nlen
        invariant
            k <= nlen,
            0 < nlen,
            nlen == name@.len(),
            spec_colon_ix(input@) >= 0,
            name@ == spec_trim(input@.take(spec_colon_ix(input@))),
            forall|j: int| 0 <= j < k ==> spec_is_name_char(#[trigger] name@[j]),
        decreases nlen - k,
    {
        if !is_name_char(name.as_str().get_char(k)) {
            let mut e = String::new();
            e.append("Field name must be lowercase alphanumeric with underscores, got '");
            e.append(name.as_str());
            e.append("'");
            proof {
                assert(!spec_is_name_char(name@[k as int]));
                assert(!spec_name_ok(name@));
                assert(e@ =~= spec_bad_name_error(name@));
            }
            return Err(e);
        }
        k = k + 1;
    }
    let t = lower_string(traw.as_str());
    proof {
        reveal_strlit("string");
        reveal_strlit("text");
        reveal_strlit("i32");
        reveal_strlit("integer");
        reveal_strlit("i64");
        reveal_strlit("bigint");
        reveal_strlit("f32");
        reveal_strlit("float");
        reveal_strlit("f64");
        reveal_strlit("double");
        reveal_strlit("bool");
        reveal_strlit("boolean");
        reveal_strlit("uuid");
        reveal_strlit("datetime");
        reveal_strlit("date");
        reveal_strlit("decimal");
        reveal_strlit("json");
    }
    let ts = t.as_str();
    let entry: Option<(&str, &str, &str)> = if str_eq(ts, "string") {
        Some(("String", "String", ".string().not_null()"))
    } else if str_eq(ts, "text") {
        Some(("String", "Text", ".text().not_null()"))
    } else if str_eq(ts, "i32") || str_eq(ts, "integer") {
        Some(("i32", "i32", ".integer().not_null()"))
    } else if str_eq(ts, "i64") || str_eq(ts, "bigint") {
        Some(("i64", "i64", ".big_integer().not_null()"))
    } else if str_eq(ts, "f32") || str_eq(ts, "float") {
        Some(("f32", "f32", ".float().not_null()"))
    } else if str_eq(ts, "f64") || str_eq(ts, "double") {
        Some(("f64", "f64", ".double().not_null()"))
    } else if str_eq(ts, "bool") || str_eq(ts, "boolean") {
        Some(("bool", "bool", ".boolean().not_null()"))
    } else if str_eq(ts, "uuid") {
        Some(("Uuid", "Uuid", ".uuid().not_null()"))
    } else if str_eq(ts, "datetime") {
        Some(("DateTimeUtc", "DateTime", ".date_time().not_null()"))
    } else if str_eq(ts, "date") {
        Some(("Date", "Date", ".date().not_null()"))
    } else if str_eq(ts, "decimal") {
        Some(("Decimal", "Decimal", ".decimal().not_null()"))
    } else if str_eq(ts, "json") {
        Some(("Json", "Json", ".json().not_null()"))
    } else {
        None
    };
    match entry {
        Some((rt, st, cm)) => Ok(
            FieldInfo {
                name,
                rust_type: rt.to_owned(),
                schema_type: st.to_owned(),
                column_method: cm.to_owned(),
            },
        ),
        None => {
            let mut e = String::new();
            e.append("Unknown field type '");
            e.append(traw.as_str());
            e.append(
                "'. Supported types: string, text, i32/integer, i64/bigint, f32/float, f64/double, bool/boolean, uuid, datetime, date, decimal, json",
            );
            proof {
                assert(e@ =~= spec_unknown_type_error(traw@));
            }
            Err(e)
        },
    }
}

/// Whether a name is one of the reserved Rust words the scaffolder
/// refuses.
pub open spec fn spec_reserved(name: Seq<char>) -> bool {
    ||| name == "self"@
    ||| name == "super"@
    ||| name == "crate"@
    ||| name == "mod"@
    ||| name == "type"@
    ||| name == "fn"@
    ||| name == "struct"@
    ||| name == "enum"@
    ||| name == "impl"@
}

/// The error text for a resource name with a character outside its
/// alphabet.
pub open spec fn spec_resource_char_error(c: char) -> Seq<char> {
    "Resource name must be lowercase alphanumeric with underscores, got '"@ + seq![c] + "'"@
}

/// The error text for a reserved resource name.
pub open spec fn spec_reserved_error(name: Seq<char>) -> Seq<char> {
    "'"@ + name + "' is a reserved Rust keyword"@
}

/// Validates a resource name: nonempty, lowercase alphanumeric with
/// underscores, not beginning or ending with an underscore, and not
/// a reserved Rust word. Each failure carries its exact message.
pub fn validate_resource_name(name: &str) -> (r: Result<(), String>)
    ensures
        match r {
            Ok(_) => {
                &&& name@.len() > 0
                &&& spec_name_ok(name@)
                &&& name@[0] != '_'
                &&& name@.last() != '_'
                &&& !spec_reserved(name@)
            },
            Err(e) => {
                if name@.len() == 0 {
                    e@ == "Resource name cannot be empty"@
                } else if !spec_name_ok(name@) {
                    e@ == spec_resource_char_error(name@[spec_first_bad(name@)])
                } else if name@[0] == '_' || name@.last() == '_' {
                    e@ == "Resource name cannot start or end with underscore"@
                } else {
                    spec_reserved(name@) && e@ == spec_reserved_error(name@)
                }
            },
        },
{
    let len = name.unicode_len();
    if len == 0 {
        return Err("Resource name cannot be empty".to_owned());
    }
    let mut k: usize = 0;
    while k < len
        invariant
            k <= len,
            len == name@.len(),
            forall|j: int| 0 <= j < k ==> spec_is_name_char(#[trigger] name@[j]),
        decreases len - k,
    {
        let c = name.get_char(k);
        if !is_name_char(c) {
            proof {
                lemma_first_bad_at(name@, k as int);
            }
            let mut e = String::new();
            e.append("Resource name must be lowercase alphanumeric with underscores, got '");
            push_char(&mut e, c);
            e.append("'");
            proof {
                assert(e@ =~= spec_resource_char_error(name@[k as int]));
            }
            return Err(e);
        }
        k = k + 1;
    }
    if name.get_char(0) == '_' || name.get_char(len - 1) == '_' {
        return Err("Resource name cannot start or end with underscore".to_owned());
    }
    proof {
        reveal_strlit("self");
        reveal_strlit("super");
        reveal_strlit("crate");
        reveal_strlit("mod");
        reveal_strlit("type");
        reveal_strlit("fn");
        reveal_strlit("struct");
        reveal_strlit("enum");
        reveal_strlit("impl");
    }
    if str_eq(name, "self") || str_eq(name, "super") || str_eq(name, "crate") || str_eq(
        name,
        "mod",
    ) || str_eq(name, "type") || str_eq(name, "fn") || str_eq(name, "struct") || str_eq(
        name,
        "enum",
    ) || str_eq(name, "impl") {
        let mut e = String::new();
        e.append("'");
        e.append(name);
        e.append("' is a reserved Rust keyword");
        proof {
            assert(e@ =~= spec_reserved_error(name@));
        }
        return Err(e);
    }
    Ok(())
}

} // verus!
