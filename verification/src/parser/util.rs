//! Typed extraction of scalar fields from a JSON object, returning the
//! parser's error taxonomy.
//!
//! A field that is absent or of the wrong JSON kind fails with
//! `MissingRequiredField(path)`; a number that is negative, non-integral or
//! beyond the target width fails with `InvalidFieldType(path)` — never
//! silently truncated.

use crate::json::{spec_get, JsonNum, JsonValue, JsonView};
use crate::parser::{ParserError, ParserErrorView};
use vstd::prelude::*;

verus! {

/// The path reported for a field: the caller's qualified path where given,
/// the field name itself otherwise.
pub open spec fn spec_path(field: Seq<char>, path: Option<&str>) -> Seq<char> {
    match path {
        Some(p) => p@,
        None => field,
    }
}

/// What extracting a string field yields.
pub open spec fn spec_get_string(v: JsonView, field: Seq<char>, path: Seq<char>) -> Result<
    Seq<char>,
    ParserErrorView,
> {
    match spec_get(v, field) {
        Some(JsonView::Str(s)) => Ok(s),
        _ => Err(ParserErrorView::MissingRequiredField(path)),
    }
}

/// What extracting an unsigned 32-bit field yields.
pub open spec fn spec_get_u32(v: JsonView, field: Seq<char>, path: Seq<char>) -> Result<
    u32,
    ParserErrorView,
> {
    match spec_get(v, field) {
        Some(JsonView::Num(JsonNum::UInt(u))) => if u <= u32::MAX as u64 {
            Ok(u as u32)
        } else {
            Err(ParserErrorView::InvalidFieldType(path))
        },
        Some(JsonView::Num(_)) => Err(ParserErrorView::InvalidFieldType(path)),
        _ => Err(ParserErrorView::MissingRequiredField(path)),
    }
}

/// What extracting an unsigned 64-bit field yields.
pub open spec fn spec_get_u64(v: JsonView, field: Seq<char>, path: Seq<char>) -> Result<
    u64,
    ParserErrorView,
> {
    match spec_get(v, field) {
        Some(JsonView::Num(JsonNum::UInt(u))) => Ok(u),
        Some(JsonView::Num(_)) => Err(ParserErrorView::InvalidFieldType(path)),
        _ => Err(ParserErrorView::MissingRequiredField(path)),
    }
}

/// What extracting a boolean field yields.
pub open spec fn spec_get_bool(v: JsonView, field: Seq<char>, path: Seq<char>) -> Result<
    bool,
    ParserErrorView,
> {
    match spec_get(v, field) {
        Some(JsonView::Bool(b)) => Ok(b),
        _ => Err(ParserErrorView::MissingRequiredField(path)),
    }
}

/// What reading an array of strings yields: the strings in order, or the
/// path of the first element that is not a string.
pub open spec fn spec_strings_of(items: Seq<JsonView>, path: Seq<char>) -> Result<
    Seq<Seq<char>>,
    ParserErrorView,
>
    decreases items.len(),
{
    if items.len() == 0 {
        Ok(Seq::empty())
    } else {
        match items[0] {
            JsonView::Str(s) => match spec_strings_of(items.drop_first(), path) {
                Ok(rest) => Ok(seq![s] + rest),
                Err(e) => Err(e),
            },
            _ => Err(ParserErrorView::InvalidFieldType(path)),
        }
    }
}

/// What extracting a string-array field yields.
pub open spec fn spec_get_string_array(v: JsonView, field: Seq<char>, path: Seq<char>) -> Result<
    Seq<Seq<char>>,
    ParserErrorView,
> {
    match spec_get(v, field) {
        Some(JsonView::Arr(items)) => spec_strings_of(items, path),
        _ => Err(ParserErrorView::MissingRequiredField(path)),
    }
}

/// Extracts a required string field.
pub fn get_string(value: &JsonValue, field: &str, path: Option<&str>) -> (r: Result<
    String,
    ParserError,
>)
    ensures
        match r {
            Ok(s) => spec_get_string(value@, field@, spec_path(field@, path)) == Ok::<
                Seq<char>,
                ParserErrorView,
            >(s@),
            Err(e) => spec_get_string(value@, field@, spec_path(field@, path)) == Err::<
                Seq<char>,
                ParserErrorView,
            >(e@),
        },
{
    let path_str: &str = match path {
        Some(p) => p,
        None => field,
    };
    match value.get(field) {
        Some(found) => match found {
            JsonValue::Str(s) => Ok(s.clone()),
            _ => Err(ParserError::MissingRequiredField(path_str.to_owned())),
        },
        None => Err(ParserError::MissingRequiredField(path_str.to_owned())),
    }
}

/// Extracts a required unsigned 32-bit field; an out-of-range number is an
/// error, never truncated.
pub fn get_u32(value: &JsonValue, field: &str, path: Option<&str>) -> (r: Result<u32, ParserError>)
    ensures
        match r {
            Ok(n) => spec_get_u32(value@, field@, spec_path(field@, path)) == Ok::<
                u32,
                ParserErrorView,
            >(n),
            Err(e) => spec_get_u32(value@, field@, spec_path(field@, path)) == Err::<
                u32,
                ParserErrorView,
            >(e@),
        },
{
    let path_str: &str = match path {
        Some(p) => p,
        None => field,
    };
    match value.get(field) {
        Some(found) => match found {
            JsonValue::Num(n) => match n {
                JsonNum::UInt(u) => {
                    if *u <= u32::MAX as u64 {
                        Ok(*u as u32)
                    } else {
                        Err(ParserError::InvalidFieldType(path_str.to_owned()))
                    }
                },
                _ => Err(ParserError::InvalidFieldType(path_str.to_owned())),
            },
            _ => Err(ParserError::MissingRequiredField(path_str.to_owned())),
        },
        None => Err(ParserError::MissingRequiredField(path_str.to_owned())),
    }
}

/// Extracts a required unsigned 64-bit field; a negative or non-integral
/// number is an error, never truncated.
pub fn get_u64(value: &JsonValue, field: &str, path: Option<&str>) -> (r: Result<u64, ParserError>)
    ensures
        match r {
            Ok(n) => spec_get_u64(value@, field@, spec_path(field@, path)) == Ok::<
                u64,
                ParserErrorView,
            >(n),
            Err(e) => spec_get_u64(value@, field@, spec_path(field@, path)) == Err::<
                u64,
                ParserErrorView,
            >(e@),
        },
{
    let path_str: &str = match path {
        Some(p) => p,
        None => field,
    };
    match value.get(field) {
        Some(found) => match found {
            JsonValue::Num(n) => match n {
                JsonNum::UInt(u) => Ok(*u),
                _ => Err(ParserError::InvalidFieldType(path_str.to_owned())),
            },
            _ => Err(ParserError::MissingRequiredField(path_str.to_owned())),
        },
        None => Err(ParserError::MissingRequiredField(path_str.to_owned())),
    }
}

/// Extracts a required boolean field.
pub fn get_bool(value: &JsonValue, field: &str, path: Option<&str>) -> (r: Result<
    bool,
    ParserError,
>)
    ensures
        match r {
            Ok(b) => spec_get_bool(value@, field@, spec_path(field@, path)) == Ok::<
                bool,
                ParserErrorView,
            >(b),
            Err(e) => spec_get_bool(value@, field@, spec_path(field@, path)) == Err::<
                bool,
                ParserErrorView,
            >(e@),
        },
{
    let path_str: &str = match path {
        Some(p) => p,
        None => field,
    };
    match value.get(field) {
        Some(found) => match found {
            JsonValue::Bool(b) => Ok(*b),
            _ => Err(ParserError::MissingRequiredField(path_str.to_owned())),
        },
        None => Err(ParserError::MissingRequiredField(path_str.to_owned())),
    }
}

/// Reading every element of a string array succeeds exactly when each
/// element is a string.
proof fn lemma_strings_of_ok(items: Seq<JsonView>, path: Seq<char>, strs: Seq<Seq<char>>)
    requires
        items.len() == strs.len(),
        forall|k: int| 0 <= k < items.len() ==> items[k] == JsonView::Str(strs[k]),
    ensures
        spec_strings_of(items, path) == Ok::<Seq<Seq<char>>, ParserErrorView>(strs),
    decreases items.len(),
{
    if items.len() > 0 {
        lemma_strings_of_ok(items.drop_first(), path, strs.drop_first());
        assert(seq![strs[0]] + strs.drop_first() =~= strs);
    } else {
        assert(strs =~= Seq::<Seq<char>>::empty());
    }
}

/// Reading a string array stops at the first element that is not a string.
proof fn lemma_strings_of_bad(items: Seq<JsonView>, path: Seq<char>, j: int)
    requires
        0 <= j < items.len(),
        !(items[j] matches JsonView::Str(_)),
        forall|k: int| 0 <= k < j ==> #[trigger] items[k] matches JsonView::Str(_),
    ensures
        spec_strings_of(items, path) == Err::<Seq<Seq<char>>, ParserErrorView>(
            ParserErrorView::InvalidFieldType(path),
        ),
    decreases j,
{
    if j > 0 {
        lemma_strings_of_bad(items.drop_first(), path, j - 1);
    }
}

/// Extracts a required array-of-strings field.
pub fn get_string_array(value: &JsonValue, field: &str, path: Option<&str>) -> (r: Result<
    Vec<String>,
    ParserError,
>)
    ensures
        match r {
            Ok(v) => spec_get_string_array(value@, field@, spec_path(field@, path)) == Ok::<
                Seq<Seq<char>>,
                ParserErrorView,
            >(v@.map_values(|s: String| s@)),
            Err(e) => spec_get_string_array(value@, field@, spec_path(field@, path)) == Err::<
                Seq<Seq<char>>,
                ParserErrorView,
            >(e@),
        },
{
    let path_str: &str = match path {
        Some(p) => p,
        None => field,
    };
    let ghost gpath = spec_path(field@, path);
    match value.get(field) {
        Some(found) => match found {
            JsonValue::Arr(items) => {
                proof {
                    crate::json::lemma_json_view_seq(items@);
                }
                let ghost iv = crate::json::json_view_seq(items@);
                let mut out: Vec<String> = Vec::new();
                let mut i: usize = 0;
                while i < items.len()
                    invariant
                        i <= items.len(),
                        iv == crate::json::json_view_seq(items@),
                        iv.len() == items@.len(),
                        gpath == spec_path(field@, path),
                        path_str@ == gpath,
                        spec_get_string_array(value@, field@, gpath) == spec_strings_of(iv, gpath),
                        forall|k: int|
                            0 <= k < items@.len() ==> #[trigger] iv[k] == crate::json::json_view(
                                items@[k],
                            ),
                        out@.len() == i,
                        forall|k: int|
                            0 <= k < i ==> #[trigger] iv[k] == JsonView::Str(out@[k]@),
                    decreases items.len() - i,
                {
                    match &items[i] {
                        JsonValue::Str(s) => {
                            out.push(s.clone());
                        },
                        _ => {
                            proof {
                                lemma_strings_of_bad(iv, gpath, i as int);
                            }
                            return Err(ParserError::InvalidFieldType(path_str.to_owned()));
                        },
                    }
                    i += 1;
                }
                proof {
                    lemma_strings_of_ok(iv, gpath, out@.map_values(|s: String| s@));
                }
                Ok(out)
            },
            _ => Err(ParserError::MissingRequiredField(path_str.to_owned())),
        },
        None => Err(ParserError::MissingRequiredField(path_str.to_owned())),
    }
}

} // verus!
