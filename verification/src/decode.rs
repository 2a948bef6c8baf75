//! Typed reading and writing of JSON object members. Absent and `null`
//! optional members are the same; a member of the wrong type is an error that
//! names it.

use vstd::prelude::*;
use crate::json::{json_as_i64, json_as_u64, obj_get, obj_set, Json, JsonMap, JsonV, Num, NumV, ObjV};
use crate::model::{dup_vec, group_views, opt_view, opt_views, views, Dup};
use crate::text::{cat3, str_eq};
use crate::value::num_as_float;

verus! {

broadcast use group_views;

/// A required member is absent.
pub open spec fn missing_field(k: Seq<char>) -> Seq<char> {
    "missing field `"@ + k + "`"@
}

/// A member has the wrong type.
pub open spec fn wrong_field(k: Seq<char>) -> Seq<char> {
    "invalid type for field `"@ + k + "`"@
}

/// A value that had to be an object is none.
pub open spec fn not_an_object() -> Seq<char> {
    "invalid type: expected an object"@
}

fn missing(k: &str) -> (r: String)
    ensures
        r@ == missing_field(k@),
{
    cat3("missing field `", k, "`")
}

/// The message for a member of the wrong type.
pub fn wrong(k: &str) -> (r: String)
    ensures
        r@ == wrong_field(k@),
{
    cat3("invalid type for field `", k, "`")
}

/// A result, seen through the view of its value.
pub open spec fn res<T: View>(r: Result<T, String>) -> Result<T::V, Seq<char>> {
    match r {
        Ok(t) => Ok(t@),
        Err(e) => Err(e@),
    }
}

/// A result with an optional value, seen through its view.
pub open spec fn res_opt<T: View>(r: Result<Option<T>, String>) -> Result<Option<T::V>, Seq<char>> {
    match r {
        Ok(t) => Ok(opt_view(t)),
        Err(e) => Err(e@),
    }
}

/// A result with a vector, seen through the views of its elements.
pub open spec fn res_vec<T: View>(r: Result<Vec<T>, String>) -> Result<Seq<T::V>, Seq<char>> {
    match r {
        Ok(t) => Ok(views(t@)),
        Err(e) => Err(e@),
    }
}

/// A result with an optional vector, seen through the views of its elements.
pub open spec fn res_opt_vec<T: View>(r: Result<Option<Vec<T>>, String>) -> Result<Option<Seq<T::V>>, Seq<char>> {
    match r {
        Ok(t) => Ok(opt_views(t)),
        Err(e) => Err(e@),
    }
}

/// A result with a plain value.
pub open spec fn res_plain<T>(r: Result<T, String>) -> Result<T, Seq<char>> {
    match r {
        Ok(t) => Ok(t),
        Err(e) => Err(e@),
    }
}

/// A required string.
pub open spec fn req_str(o: ObjV, k: Seq<char>) -> Result<Seq<char>, Seq<char>> {
    match obj_get(o, k) {
        None => Err(missing_field(k)),
        Some(JsonV::Str(s)) => Ok(s),
        Some(_) => Err(wrong_field(k)),
    }
}

/// Reads a required string.
pub fn get_str(o: &JsonMap, k: &str) -> (r: Result<String, String>)
    ensures
        res(r) == req_str(o@, k@),
{
    match o.get(k) {
        None => Err(missing(k)),
        Some(Json::Str(s)) => Ok(s.clone()),
        Some(_) => Err(wrong(k)),
    }
}

/// A string that is empty when absent.
pub open spec fn default_str(o: ObjV, k: Seq<char>) -> Result<Seq<char>, Seq<char>> {
    match obj_get(o, k) {
        None => Ok(Seq::empty()),
        Some(JsonV::Str(s)) => Ok(s),
        Some(_) => Err(wrong_field(k)),
    }
}

/// Reads a string that is empty when absent.
pub fn get_default_str(o: &JsonMap, k: &str) -> (r: Result<String, String>)
    ensures
        res(r) == default_str(o@, k@),
{
    match o.get(k) {
        None => Ok(String::new()),
        Some(Json::Str(s)) => Ok(s.clone()),
        Some(_) => Err(wrong(k)),
    }
}

/// An optional string.
pub open spec fn opt_str(o: ObjV, k: Seq<char>) -> Result<Option<Seq<char>>, Seq<char>> {
    match obj_get(o, k) {
        None | Some(JsonV::Null) => Ok(None),
        Some(JsonV::Str(s)) => Ok(Some(s)),
        Some(_) => Err(wrong_field(k)),
    }
}

/// Reads an optional string.
pub fn get_opt_str(o: &JsonMap, k: &str) -> (r: Result<Option<String>, String>)
    ensures
        res_opt(r) == opt_str(o@, k@),
{
    match o.get(k) {
        None | Some(Json::Null) => Ok(None),
        Some(Json::Str(s)) => Ok(Some(s.clone())),
        Some(_) => Err(wrong(k)),
    }
}

/// An optional boolean.
pub open spec fn opt_bool(o: ObjV, k: Seq<char>) -> Result<Option<bool>, Seq<char>> {
    match obj_get(o, k) {
        None | Some(JsonV::Null) => Ok(None),
        Some(JsonV::Bool(b)) => Ok(Some(b)),
        Some(_) => Err(wrong_field(k)),
    }
}

/// Reads an optional boolean.
pub fn get_opt_bool(o: &JsonMap, k: &str) -> (r: Result<Option<bool>, String>)
    ensures
        res_plain(r) == opt_bool(o@, k@),
{
    match o.get(k) {
        None | Some(Json::Null) => Ok(None),
        Some(Json::Bool(b)) => Ok(Some(*b)),
        Some(_) => Err(wrong(k)),
    }
}

/// An optional unsigned 64-bit integer.
pub open spec fn opt_u64(o: ObjV, k: Seq<char>) -> Result<Option<u64>, Seq<char>> {
    match obj_get(o, k) {
        None | Some(JsonV::Null) => Ok(None),
        Some(j) => match json_as_u64(Some(j)) {
            Some(n) => Ok(Some(n)),
            None => Err(wrong_field(k)),
        },
    }
}

/// Reads an optional unsigned 64-bit integer.
pub fn get_opt_u64(o: &JsonMap, k: &str) -> (r: Result<Option<u64>, String>)
    ensures
        res_plain(r) == opt_u64(o@, k@),
{
    match o.get(k) {
        None | Some(Json::Null) => Ok(None),
        Some(j) => match j.as_u64() {
            Some(n) => Ok(Some(n)),
            None => Err(wrong(k)),
        },
    }
}

/// An unsigned 64-bit integer that is zero when absent.
pub open spec fn default_u64(o: ObjV, k: Seq<char>) -> Result<u64, Seq<char>> {
    match obj_get(o, k) {
        None => Ok(0),
        Some(j) => match json_as_u64(Some(j)) {
            Some(n) => Ok(n),
            None => Err(wrong_field(k)),
        },
    }
}

/// Reads an unsigned 64-bit integer that is zero when absent.
pub fn get_default_u64(o: &JsonMap, k: &str) -> (r: Result<u64, String>)
    ensures
        res_plain(r) == default_u64(o@, k@),
{
    match o.get(k) {
        None => Ok(0),
        Some(j) => match j.as_u64() {
            Some(n) => Ok(n),
            None => Err(wrong(k)),
        },
    }
}

/// An optional unsigned 32-bit integer.
pub open spec fn opt_u32(o: ObjV, k: Seq<char>) -> Result<Option<u32>, Seq<char>> {
    match obj_get(o, k) {
        None | Some(JsonV::Null) => Ok(None),
        Some(j) => match json_as_u64(Some(j)) {
            Some(n) => if n <= u32::MAX { Ok(Some(n as u32)) } else { Err(wrong_field(k)) },
            None => Err(wrong_field(k)),
        },
    }
}

/// Reads an optional unsigned 32-bit integer.
pub fn get_opt_u32(o: &JsonMap, k: &str) -> (r: Result<Option<u32>, String>)
    ensures
        res_plain(r) == opt_u32(o@, k@),
{
    match o.get(k) {
        None | Some(Json::Null) => Ok(None),
        Some(j) => match j.as_u64() {
            Some(n) => if n <= u32::MAX as u64 { Ok(Some(n as u32)) } else { Err(wrong(k)) },
            None => Err(wrong(k)),
        },
    }
}

/// An optional signed 64-bit integer.
pub open spec fn opt_i64(o: ObjV, k: Seq<char>) -> Result<Option<i64>, Seq<char>> {
    match obj_get(o, k) {
        None | Some(JsonV::Null) => Ok(None),
        Some(j) => match json_as_i64(Some(j)) {
            Some(n) => Ok(Some(n)),
            None => Err(wrong_field(k)),
        },
    }
}

/// Reads an optional signed 64-bit integer.
pub fn get_opt_i64(o: &JsonMap, k: &str) -> (r: Result<Option<i64>, String>)
    ensures
        res_plain(r) == opt_i64(o@, k@),
{
    match o.get(k) {
        None | Some(Json::Null) => Ok(None),
        Some(j) => match j.as_i64() {
            Some(n) => Ok(Some(n)),
            None => Err(wrong(k)),
        },
    }
}

/// A required array position.
pub open spec fn req_usize(o: ObjV, k: Seq<char>) -> Result<usize, Seq<char>> {
    match obj_get(o, k) {
        None => Err(missing_field(k)),
        Some(j) => match json_as_u64(Some(j)) {
            Some(n) => if n <= usize::MAX { Ok(n as usize) } else { Err(wrong_field(k)) },
            None => Err(wrong_field(k)),
        },
    }
}

/// Reads a required array position.
pub fn get_usize(o: &JsonMap, k: &str) -> (r: Result<usize, String>)
    ensures
        res_plain(r) == req_usize(o@, k@),
{
    match o.get(k) {
        None => Err(missing(k)),
        Some(j) => match j.as_u64() {
            Some(n) => if n <= usize::MAX as u64 { Ok(n as usize) } else { Err(wrong(k)) },
            None => Err(wrong(k)),
        },
    }
}

/// An optional number, read as a floating-point number.
pub open spec fn opt_float(o: ObjV, k: Seq<char>) -> Result<Option<NumV>, Seq<char>> {
    match obj_get(o, k) {
        None | Some(JsonV::Null) => Ok(None),
        Some(JsonV::Number(n)) => match num_as_float(n) {
            Some(f) => Ok(Some(f)),
            None => Err(wrong_field(k)),
        },
        Some(_) => Err(wrong_field(k)),
    }
}

/// Reads an optional number as a floating-point number.
pub fn get_opt_float(o: &JsonMap, k: &str) -> (r: Result<Option<Num>, String>)
    ensures
        res_opt(r) == opt_float(o@, k@),
{
    match o.get(k) {
        None | Some(Json::Null) => Ok(None),
        Some(Json::Number(n)) => match n.to_float() {
            Some(f) => Ok(Some(f)),
            None => Err(wrong(k)),
        },
        Some(_) => Err(wrong(k)),
    }
}

/// A required value of any type.
pub open spec fn req_value(o: ObjV, k: Seq<char>) -> Result<JsonV, Seq<char>> {
    match obj_get(o, k) {
        None => Err(missing_field(k)),
        Some(j) => Ok(j),
    }
}

/// Reads a required value of any type.
pub fn get_value(o: &JsonMap, k: &str) -> (r: Result<Json, String>)
    ensures
        res(r) == req_value(o@, k@),
{
    match o.get(k) {
        None => Err(missing(k)),
        Some(j) => Ok(j.copy()),
    }
}

/// An optional value of any type.
pub open spec fn opt_value(o: ObjV, k: Seq<char>) -> Result<Option<JsonV>, Seq<char>> {
    match obj_get(o, k) {
        None | Some(JsonV::Null) => Ok(None),
        Some(j) => Ok(Some(j)),
    }
}

/// Reads an optional value of any type.
pub fn get_opt_value(o: &JsonMap, k: &str) -> (r: Result<Option<Json>, String>)
    ensures
        res_opt(r) == opt_value(o@, k@),
{
    match o.get(k) {
        None | Some(Json::Null) => Ok(None),
        Some(j) => Ok(Some(j.copy())),
    }
}

/// An array that is empty when absent.
pub open spec fn default_values(o: ObjV, k: Seq<char>) -> Result<Seq<JsonV>, Seq<char>> {
    match obj_get(o, k) {
        None => Ok(Seq::empty()),
        Some(JsonV::Array(a)) => Ok(a),
        Some(_) => Err(wrong_field(k)),
    }
}

/// Reads an array that is empty when absent.
pub fn get_default_values(o: &JsonMap, k: &str) -> (r: Result<Vec<Json>, String>)
    ensures
        res_vec(r) == default_values(o@, k@),
{
    match o.get(k) {
        None => Ok(Vec::new()),
        Some(j) => match j.as_array() {
            Some(a) => Ok(dup_vec(a)),
            None => Err(wrong(k)),
        },
    }
}

/// An optional array.
pub open spec fn opt_values(o: ObjV, k: Seq<char>) -> Result<Option<Seq<JsonV>>, Seq<char>> {
    match obj_get(o, k) {
        None | Some(JsonV::Null) => Ok(None),
        Some(JsonV::Array(a)) => Ok(Some(a)),
        Some(_) => Err(wrong_field(k)),
    }
}

/// Reads an optional array.
pub fn get_opt_values(o: &JsonMap, k: &str) -> (r: Result<Option<Vec<Json>>, String>)
    ensures
        res_opt_vec(r) == opt_values(o@, k@),
{
    match o.get(k) {
        None | Some(Json::Null) => Ok(None),
        Some(j) => match j.as_array() {
            Some(a) => Ok(Some(dup_vec(a))),
            None => Err(wrong(k)),
        },
    }
}

/// The texts of the first `n` elements, when all of them are strings.
pub open spec fn all_strings(a: Seq<JsonV>, n: nat) -> Option<Seq<Seq<char>>>
    decreases n,
{
    if n == 0 || n > a.len() {
        Some(Seq::empty())
    } else {
        match (all_strings(a, (n - 1) as nat), a[n - 1]) {
            (Some(prev), JsonV::Str(s)) => Some(prev.push(s)),
            _ => None,
        }
    }
}

proof fn all_strings_none_stays(a: Seq<JsonV>, n: nat, m: nat)
    requires
        n <= m <= a.len(),
        all_strings(a, n) is None,
    ensures
        all_strings(a, m) is None,
    decreases m - n,
{
    if n < m {
        all_strings_none_stays(a, n, (m - 1) as nat);
    }
}

/// The texts of the elements, when all of them are strings.
pub fn strings_of(a: &Vec<Json>) -> (r: Option<Vec<String>>)
    ensures
        opt_views(r) == all_strings(views(a@), a@.len()),
{
    let mut out: Vec<String> = Vec::new();
    let mut i: usize = 0;
    while i < a.len()
        invariant
            i <= a@.len(),
            all_strings(views(a@), i as nat) == Some(views(out@)),
        decreases a@.len() - i,
    {
        match &a[i] {
            Json::Str(s) => {
                out.push(s.clone());
            },
            _ => {
                proof {
                    assert(!(views(a@)[i as int] is Str));
                    all_strings_none_stays(views(a@), i as nat + 1, a@.len());
                }
                return None;
            },
        }
        i += 1;
    }
    Some(out)
}

/// An optional array of strings.
pub open spec fn opt_strings(o: ObjV, k: Seq<char>) -> Result<Option<Seq<Seq<char>>>, Seq<char>> {
    match obj_get(o, k) {
        None | Some(JsonV::Null) => Ok(None),
        Some(JsonV::Array(a)) => match all_strings(a, a.len()) {
            Some(s) => Ok(Some(s)),
            None => Err(wrong_field(k)),
        },
        Some(_) => Err(wrong_field(k)),
    }
}

/// Reads an optional array of strings.
pub fn get_opt_strings(o: &JsonMap, k: &str) -> (r: Result<Option<Vec<String>>, String>)
    ensures
        res_opt_vec(r) == opt_strings(o@, k@),
{
    match o.get(k) {
        None | Some(Json::Null) => Ok(None),
        Some(j) => match j.as_array() {
            Some(a) => match strings_of(a) {
                Some(s) => Ok(Some(s)),
                None => Err(wrong(k)),
            },
            None => Err(wrong(k)),
        },
    }
}

/// An optional object.
pub open spec fn opt_object(o: ObjV, k: Seq<char>) -> Result<Option<ObjV>, Seq<char>> {
    match obj_get(o, k) {
        None | Some(JsonV::Null) => Ok(None),
        Some(JsonV::Object(m)) => Ok(Some(m)),
        Some(_) => Err(wrong_field(k)),
    }
}

/// Reads an optional object.
pub fn get_opt_object(o: &JsonMap, k: &str) -> (r: Result<Option<JsonMap>, String>)
    ensures
        res_opt(r) == opt_object(o@, k@),
{
    match o.get(k) {
        None | Some(Json::Null) => Ok(None),
        Some(j) => match j.as_object() {
            Some(m) => Ok(Some(m.copy())),
            None => Err(wrong(k)),
        },
    }
}

/// The members among the first `n` whose names are not in `known`, in order.
pub open spec fn unknown_upto(o: ObjV, known: Seq<Seq<char>>, n: nat) -> ObjV
    decreases n,
{
    if n == 0 || n > o.len() {
        Seq::empty()
    } else if known.contains(o[n - 1].0) {
        unknown_upto(o, known, (n - 1) as nat)
    } else {
        unknown_upto(o, known, (n - 1) as nat).push(o[n - 1])
    }
}

/// The members whose names are not in `known`, in order.
pub open spec fn unknown(o: ObjV, known: Seq<Seq<char>>) -> ObjV {
    unknown_upto(o, known, o.len())
}

fn is_known(k: &str, known: &Vec<&str>) -> (r: bool)
    ensures
        r == views(known@).contains(k@),
{
    let mut i: usize = 0;
    while i < known.len()
        invariant
            i <= known@.len(),
            forall|j: int| 0 <= j < i ==> views(known@)[j] != k@,
        decreases known@.len() - i,
    {
        if str_eq(known[i], k) {
            proof {
                assert(views(known@)[i as int] == k@);
            }
            return true;
        }
        i += 1;
    }
    false
}

/// The members whose names are not in `known`, in order.
pub fn unknown_members(o: &JsonMap, known: &Vec<&str>) -> (r: JsonMap)
    ensures
        r@ == unknown(o@, views(known@)),
{
    let mut out = JsonMap::new();
    let mut i: usize = 0;
    while i < o.entries.len()
        invariant
            i <= o.entries@.len(),
            out@ == unknown_upto(o@, views(known@), i as nat),
        decreases o.entries@.len() - i,
    {
        proof {
            assert(o@[i as int] == (o.entries@[i as int].0@, o.entries@[i as int].1@));
        }
        if !is_known(o.entries[i].0.as_str(), known) {
            out.entries.push((o.entries[i].0.clone(), o.entries[i].1.copy()));
        }
        i += 1;
    }
    out
}

/// `o` after the first `n` members of `more` were set in it.
pub open spec fn extended_upto(o: ObjV, more: ObjV, n: nat) -> ObjV
    decreases n,
{
    if n == 0 || n > more.len() {
        o
    } else {
        obj_set(extended_upto(o, more, (n - 1) as nat), more[n - 1].0, more[n - 1].1)
    }
}

/// `o` after the members of `more` were set in it.
pub open spec fn extended(o: ObjV, more: ObjV) -> ObjV {
    extended_upto(o, more, more.len())
}

/// Sets every member of `more` in `o`.
pub fn extend_map(o: &mut JsonMap, more: &JsonMap)
    ensures
        final(o)@ == extended(old(o)@, more@),
{
    let ghost o0 = o@;
    let mut i: usize = 0;
    while i < more.entries.len()
        invariant
            i <= more.entries@.len(),
            o@ == extended_upto(o0, more@, i as nat),
        decreases more.entries@.len() - i,
    {
        proof {
            assert(more@[i as int] == (more.entries@[i as int].0@, more.entries@[i as int].1@));
        }
        o.set(more.entries[i].0.as_str(), more.entries[i].1.copy());
        i += 1;
    }
}

} // verus!
