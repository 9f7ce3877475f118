//! Reading typed members out of a decoded JSON object, the way the tool
//! arguments and the configuration document define them: an optional member
//! may be missing or `null`; a member of the wrong type is an error naming
//! the member; unknown members are ignored.
use vstd::prelude::*;

use crate::json::{as_u64, get, json_seq_view, lemma_json_seq_view, Json, JsonV};
use crate::text::{cat3, opt_view, strings_view};

verus! {

pub const A_STRING: &'static str = "a string";
pub const A_U32: &'static str = "an unsigned 32-bit integer";
pub const A_USIZE: &'static str = "an unsigned integer";
pub const A_BOOL: &'static str = "a boolean";
pub const NUMBERS: &'static str = "an array of numbers";
pub const STRINGS: &'static str = "an array of strings";
pub const AN_OBJECT: &'static str = "an object";
pub const NOT_AN_OBJECT: &'static str = "expected a JSON object";

pub open spec fn missing_msg(key: Seq<char>) -> Seq<char> {
    "missing field `"@ + key + "`"@
}

pub open spec fn type_msg(key: Seq<char>, expected: Seq<char>) -> Seq<char> {
    "invalid type for `"@ + key + "`, expected "@ + expected
}

pub fn missing(key: &str) -> (r: String)
    ensures
        r@ == missing_msg(key@),
{
    cat3("missing field `", key, "`")
}

pub fn wrong_type(key: &str, expected: &str) -> (r: String)
    ensures
        r@ == type_msg(key@, expected@),
{
    let mut s = cat3("invalid type for `", key, "`, expected ");
    s.append(expected);
    s
}

/// The decimal texts of an array that holds only numbers.
pub open spec fn numbers_of(a: Seq<JsonV>) -> Option<Seq<Seq<char>>> {
    if forall|k: int| 0 <= k < a.len() ==> (#[trigger] a[k]) is Number {
        Some(a.map_values(|x: JsonV| x->Number_0))
    } else {
        None
    }
}

/// The strings of an array that holds only strings.
pub open spec fn strings_of(a: Seq<JsonV>) -> Option<Seq<Seq<char>>> {
    if forall|k: int| 0 <= k < a.len() ==> (#[trigger] a[k]) is Str {
        Some(a.map_values(|x: JsonV| x->Str_0))
    } else {
        None
    }
}

pub fn numbers_from(a: &Vec<Json>) -> (r: Option<Vec<String>>)
    ensures
        match r {
            Some(ns) => numbers_of(json_seq_view(a@)) == Some(strings_view(ns@)),
            None => numbers_of(json_seq_view(a@)) is None,
        },
{
    proof { lemma_json_seq_view(a@); }
    let ghost s = json_seq_view(a@);
    let mut out: Vec<String> = Vec::new();
    let mut i: usize = 0;
    while i < a.len()
        invariant
            i <= a.len(),
            s == json_seq_view(a@),
            s.len() == a@.len(),
            forall|k: int| 0 <= k < a@.len() ==> #[trigger] s[k] == a@[k]@,
            forall|k: int| 0 <= k < i ==> (#[trigger] s[k]) is Number,
            strings_view(out@) =~= s.take(i as int).map_values(|x: JsonV| x->Number_0),
        decreases a.len() - i,
    {
        match &a[i] {
            Json::Number(t) => {
                out.push(t.clone());
                assert(s.take(i + 1).map_values(|x: JsonV| x->Number_0)
                    =~= s.take(i as int).map_values(|x: JsonV| x->Number_0).push(t@));
            },
            _ => {
                assert(!(s[i as int] is Number));
                return None;
            },
        }
        i += 1;
    }
    assert(s.take(i as int) =~= s);
    Some(out)
}

pub fn strings_from(a: &Vec<Json>) -> (r: Option<Vec<String>>)
    ensures
        match r {
            Some(ns) => strings_of(json_seq_view(a@)) == Some(strings_view(ns@)),
            None => strings_of(json_seq_view(a@)) is None,
        },
{
    proof { lemma_json_seq_view(a@); }
    let ghost s = json_seq_view(a@);
    let mut out: Vec<String> = Vec::new();
    let mut i: usize = 0;
    while i < a.len()
        invariant
            i <= a.len(),
            s == json_seq_view(a@),
            s.len() == a@.len(),
            forall|k: int| 0 <= k < a@.len() ==> #[trigger] s[k] == a@[k]@,
            forall|k: int| 0 <= k < i ==> (#[trigger] s[k]) is Str,
            strings_view(out@) =~= s.take(i as int).map_values(|x: JsonV| x->Str_0),
        decreases a.len() - i,
    {
        match &a[i] {
            Json::Str(t) => {
                out.push(t.clone());
                assert(s.take(i + 1).map_values(|x: JsonV| x->Str_0)
                    =~= s.take(i as int).map_values(|x: JsonV| x->Str_0).push(t@));
            },
            _ => {
                assert(!(s[i as int] is Str));
                return None;
            },
        }
        i += 1;
    }
    assert(s.take(i as int) =~= s);
    Some(out)
}

/// A member that may be missing or `null`.
pub open spec fn present(obj: JsonV, key: Seq<char>) -> Option<JsonV> {
    match get(obj, key) {
        Some(JsonV::Null) => None,
        other => other,
    }
}

fn present_of<'a>(obj: &'a Json, key: &str) -> (r: Option<&'a Json>)
    ensures
        match r {
            Some(v) => present(obj@, key@) == Some(v@),
            None => present(obj@, key@) is None,
        },
{
    match obj.get(key) {
        Some(Json::Null) => None,
        other => other,
    }
}

/// An optional string member.
pub open spec fn opt_string_spec(obj: JsonV, key: Seq<char>) -> Result<Option<Seq<char>>, Seq<char>> {
    match present(obj, key) {
        None => Ok(None),
        Some(JsonV::Str(s)) => Ok(Some(s)),
        Some(_) => Err(type_msg(key, A_STRING@)),
    }
}

pub fn opt_string(obj: &Json, key: &str) -> (r: Result<Option<String>, String>)
    ensures
        match r {
            Ok(o) => opt_string_spec(obj@, key@) == Ok::<Option<Seq<char>>, Seq<char>>(opt_view(o)),
            Err(m) => opt_string_spec(obj@, key@) == Err::<Option<Seq<char>>, Seq<char>>(m@),
        },
{
    match present_of(obj, key) {
        None => Ok(None),
        Some(Json::Str(s)) => Ok(Some(s.clone())),
        Some(_) => Err(wrong_type(key, A_STRING)),
    }
}

/// A required string member (`null` counts as the wrong type).
pub open spec fn req_string_spec(obj: JsonV, key: Seq<char>) -> Result<Seq<char>, Seq<char>> {
    match get(obj, key) {
        None => Err(missing_msg(key)),
        Some(JsonV::Str(s)) => Ok(s),
        Some(_) => Err(type_msg(key, A_STRING@)),
    }
}

pub fn req_string(obj: &Json, key: &str) -> (r: Result<String, String>)
    ensures
        match r {
            Ok(s) => req_string_spec(obj@, key@) == Ok::<Seq<char>, Seq<char>>(s@),
            Err(m) => req_string_spec(obj@, key@) == Err::<Seq<char>, Seq<char>>(m@),
        },
{
    match obj.get(key) {
        None => Err(missing(key)),
        Some(Json::Str(s)) => Ok(s.clone()),
        Some(_) => Err(wrong_type(key, A_STRING)),
    }
}

/// A string member with a default for when it is missing (`null` counts as
/// the wrong type).
pub open spec fn string_or_spec(obj: JsonV, key: Seq<char>, default: Seq<char>) -> Result<Seq<char>, Seq<char>> {
    match get(obj, key) {
        None => Ok(default),
        Some(JsonV::Str(s)) => Ok(s),
        Some(_) => Err(type_msg(key, A_STRING@)),
    }
}

pub fn string_or(obj: &Json, key: &str, default: &str) -> (r: Result<String, String>)
    ensures
        match r {
            Ok(s) => string_or_spec(obj@, key@, default@) == Ok::<Seq<char>, Seq<char>>(s@),
            Err(m) => string_or_spec(obj@, key@, default@) == Err::<Seq<char>, Seq<char>>(m@),
        },
{
    match obj.get(key) {
        None => Ok(default.to_owned()),
        Some(Json::Str(s)) => Ok(s.clone()),
        Some(_) => Err(wrong_type(key, A_STRING)),
    }
}

/// A `u32` member with a default for when it is missing (`null` counts as
/// the wrong type).
pub open spec fn u32_or_spec(obj: JsonV, key: Seq<char>, default: u32) -> Result<u32, Seq<char>> {
    match get(obj, key) {
        None => Ok(default),
        Some(v) => match as_u64(v) {
            Some(n) => if n <= u32::MAX { Ok(n as u32) } else { Err(type_msg(key, A_U32@)) },
            None => Err(type_msg(key, A_U32@)),
        },
    }
}

pub fn u32_or(obj: &Json, key: &str, default: u32) -> (r: Result<u32, String>)
    ensures
        match r {
            Ok(n) => u32_or_spec(obj@, key@, default) == Ok::<u32, Seq<char>>(n),
            Err(m) => u32_or_spec(obj@, key@, default) == Err::<u32, Seq<char>>(m@),
        },
{
    match obj.get(key) {
        None => Ok(default),
        Some(v) => match v.as_u64() {
            Some(n) => if n <= u32::MAX as u64 { Ok(n as u32) } else { Err(wrong_type(key, A_U32)) },
            None => Err(wrong_type(key, A_U32)),
        },
    }
}

/// An optional `u32` member.
pub open spec fn opt_u32_spec(obj: JsonV, key: Seq<char>) -> Result<Option<u32>, Seq<char>> {
    match present(obj, key) {
        None => Ok(None),
        Some(v) => match as_u64(v) {
            Some(n) => if n <= u32::MAX { Ok(Some(n as u32)) } else { Err(type_msg(key, A_U32@)) },
            None => Err(type_msg(key, A_U32@)),
        },
    }
}

pub fn opt_u32(obj: &Json, key: &str) -> (r: Result<Option<u32>, String>)
    ensures
        match r {
            Ok(n) => opt_u32_spec(obj@, key@) == Ok::<Option<u32>, Seq<char>>(n),
            Err(m) => opt_u32_spec(obj@, key@) == Err::<Option<u32>, Seq<char>>(m@),
        },
{
    match present_of(obj, key) {
        None => Ok(None),
        Some(v) => match v.as_u64() {
            Some(n) => if n <= u32::MAX as u64 { Ok(Some(n as u32)) } else { Err(wrong_type(key, A_U32)) },
            None => Err(wrong_type(key, A_U32)),
        },
    }
}

/// An optional `usize` member.
pub open spec fn opt_usize_spec(obj: JsonV, key: Seq<char>) -> Result<Option<usize>, Seq<char>> {
    match present(obj, key) {
        None => Ok(None),
        Some(v) => match as_u64(v) {
            Some(n) => if n <= usize::MAX { Ok(Some(n as usize)) } else { Err(type_msg(key, A_USIZE@)) },
            None => Err(type_msg(key, A_USIZE@)),
        },
    }
}

pub fn opt_usize(obj: &Json, key: &str) -> (r: Result<Option<usize>, String>)
    ensures
        match r {
            Ok(n) => opt_usize_spec(obj@, key@) == Ok::<Option<usize>, Seq<char>>(n),
            Err(m) => opt_usize_spec(obj@, key@) == Err::<Option<usize>, Seq<char>>(m@),
        },
{
    match present_of(obj, key) {
        None => Ok(None),
        Some(v) => match v.as_u64() {
            Some(n) => if n <= usize::MAX as u64 { Ok(Some(n as usize)) } else { Err(wrong_type(key, A_USIZE)) },
            None => Err(wrong_type(key, A_USIZE)),
        },
    }
}

/// An optional boolean member.
pub open spec fn opt_bool_spec(obj: JsonV, key: Seq<char>) -> Result<Option<bool>, Seq<char>> {
    match present(obj, key) {
        None => Ok(None),
        Some(JsonV::Bool(b)) => Ok(Some(b)),
        Some(_) => Err(type_msg(key, A_BOOL@)),
    }
}

pub fn opt_bool(obj: &Json, key: &str) -> (r: Result<Option<bool>, String>)
    ensures
        match r {
            Ok(b) => opt_bool_spec(obj@, key@) == Ok::<Option<bool>, Seq<char>>(b),
            Err(m) => opt_bool_spec(obj@, key@) == Err::<Option<bool>, Seq<char>>(m@),
        },
{
    match present_of(obj, key) {
        None => Ok(None),
        Some(Json::Bool(b)) => Ok(Some(*b)),
        Some(_) => Err(wrong_type(key, A_BOOL)),
    }
}

pub open spec fn opt_strings_view(o: Option<Vec<String>>) -> Option<Seq<Seq<char>>> {
    match o {
        Some(v) => Some(strings_view(v@)),
        None => None,
    }
}

/// An optional array of numbers, each kept as its decimal text.
pub open spec fn opt_numbers_spec(obj: JsonV, key: Seq<char>) -> Result<Option<Seq<Seq<char>>>, Seq<char>> {
    match present(obj, key) {
        None => Ok(None),
        Some(JsonV::Array(a)) => match numbers_of(a) {
            Some(ns) => Ok(Some(ns)),
            None => Err(type_msg(key, NUMBERS@)),
        },
        Some(_) => Err(type_msg(key, NUMBERS@)),
    }
}

pub fn opt_numbers(obj: &Json, key: &str) -> (r: Result<Option<Vec<String>>, String>)
    ensures
        match r {
            Ok(o) => opt_numbers_spec(obj@, key@) == Ok::<Option<Seq<Seq<char>>>, Seq<char>>(opt_strings_view(o)),
            Err(m) => opt_numbers_spec(obj@, key@) == Err::<Option<Seq<Seq<char>>>, Seq<char>>(m@),
        },
{
    match present_of(obj, key) {
        None => Ok(None),
        Some(Json::Array(a)) => match numbers_from(a) {
            Some(ns) => Ok(Some(ns)),
            None => Err(wrong_type(key, NUMBERS)),
        },
        Some(_) => Err(wrong_type(key, NUMBERS)),
    }
}

/// An optional array of strings.
pub open spec fn opt_strings_spec(obj: JsonV, key: Seq<char>) -> Result<Option<Seq<Seq<char>>>, Seq<char>> {
    match present(obj, key) {
        None => Ok(None),
        Some(JsonV::Array(a)) => match strings_of(a) {
            Some(ns) => Ok(Some(ns)),
            None => Err(type_msg(key, STRINGS@)),
        },
        Some(_) => Err(type_msg(key, STRINGS@)),
    }
}

pub fn opt_strings(obj: &Json, key: &str) -> (r: Result<Option<Vec<String>>, String>)
    ensures
        match r {
            Ok(o) => opt_strings_spec(obj@, key@) == Ok::<Option<Seq<Seq<char>>>, Seq<char>>(opt_strings_view(o)),
            Err(m) => opt_strings_spec(obj@, key@) == Err::<Option<Seq<Seq<char>>>, Seq<char>>(m@),
        },
{
    match present_of(obj, key) {
        None => Ok(None),
        Some(Json::Array(a)) => match strings_from(a) {
            Some(ns) => Ok(Some(ns)),
            None => Err(wrong_type(key, STRINGS)),
        },
        Some(_) => Err(wrong_type(key, STRINGS)),
    }
}

pub open spec fn opt_json_view(o: Option<Json>) -> Option<JsonV> {
    match o {
        Some(j) => Some(j@),
        None => None,
    }
}

/// An optional member of any JSON type, kept as it is.
pub fn opt_value(obj: &Json, key: &str) -> (r: Option<Json>)
    ensures
        opt_json_view(r) == present(obj@, key@),
{
    match present_of(obj, key) {
        None => None,
        Some(v) => Some(v.duplicate()),
    }
}

/// A member of any JSON type, `{}` when missing (an explicit `null` stays).
pub open spec fn value_or_empty_spec(obj: JsonV, key: Seq<char>) -> JsonV {
    match get(obj, key) {
        None => JsonV::Object(Seq::empty()),
        Some(v) => v,
    }
}

pub fn value_or_empty(obj: &Json, key: &str) -> (r: Json)
    ensures
        r@ == value_or_empty_spec(obj@, key@),
{
    match obj.get(key) {
        None => {
            let m: Vec<(String, Json)> = Vec::new();
            proof { crate::json::lemma_json_entries_view(m@); }
            assert(crate::json::json_entries_view(m@) =~= Seq::<(Seq<char>, JsonV)>::empty());
            Json::Object(m)
        },
        Some(v) => v.duplicate(),
    }
}

} // verus!
