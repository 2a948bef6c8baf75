//! Mirroring of unmodeled fields at their original paths.

use vstd::prelude::*;
use crate::json::{obj_get, obj_set, Json, JsonMap, JsonV, ObjV};
use crate::merge::obj_part;
use crate::model::group_views;

verus! {

broadcast use group_views;

/// `o` with member `k` set, unless the value is `null`.
pub open spec fn mirrored(o: ObjV, k: Seq<char>, v: JsonV) -> ObjV {
    if v is Null {
        o
    } else {
        obj_set(o, k, v)
    }
}

/// `o` with member `k` of its member `a` set, unless the value is `null`;
/// `a` becomes an object if it is none.
pub open spec fn mirrored2(o: ObjV, a: Seq<char>, k: Seq<char>, v: JsonV) -> ObjV {
    if v is Null {
        o
    } else {
        obj_set(o, a, JsonV::Object(obj_set(obj_part(obj_get(o, a)), k, v)))
    }
}

/// The same, one level deeper.
pub open spec fn mirrored3(o: ObjV, a: Seq<char>, b: Seq<char>, k: Seq<char>, v: JsonV) -> ObjV {
    if v is Null {
        o
    } else {
        let inner = obj_part(obj_get(o, a));
        obj_set(
            o,
            a,
            JsonV::Object(obj_set(inner, b, JsonV::Object(obj_set(obj_part(obj_get(inner, b)), k, v)))),
        )
    }
}

/// The first `n` members of `m`, mirrored under `a`.
pub open spec fn mirrored_map2(o: ObjV, a: Seq<char>, m: ObjV, n: nat) -> ObjV
    decreases n,
{
    if n == 0 || n > m.len() {
        o
    } else {
        mirrored2(mirrored_map2(o, a, m, (n - 1) as nat), a, m[n - 1].0, m[n - 1].1)
    }
}

/// The first `n` members of `m`, mirrored under `b` of `a`.
pub open spec fn mirrored_map3(o: ObjV, a: Seq<char>, b: Seq<char>, m: ObjV, n: nat) -> ObjV
    decreases n,
{
    if n == 0 || n > m.len() {
        o
    } else {
        mirrored3(mirrored_map3(o, a, b, m, (n - 1) as nat), a, b, m[n - 1].0, m[n - 1].1)
    }
}

/// The first `n` members of `m`, mirrored at the top.
pub open spec fn mirrored_map(o: ObjV, m: ObjV, n: nat) -> ObjV
    decreases n,
{
    if n == 0 || n > m.len() {
        o
    } else {
        mirrored(mirrored_map(o, m, (n - 1) as nat), m[n - 1].0, m[n - 1].1)
    }
}

fn object_at(o: &JsonMap, k: &str) -> (r: JsonMap)
    ensures
        r@ == obj_part(obj_get(o@, k@)),
{
    match o.get(k) {
        Some(j) => match j.as_object() {
            Some(m) => m.copy(),
            None => JsonMap::new(),
        },
        None => JsonMap::new(),
    }
}

/// Mirrors a value at the top.
pub fn mirror(o: &mut JsonMap, k: &str, v: Json)
    ensures
        final(o)@ == mirrored(old(o)@, k@, v@),
{
    if !v.is_null() {
        o.set(k, v);
    }
}

/// Mirrors a value one level down.
pub fn mirror2(o: &mut JsonMap, a: &str, k: &str, v: Json)
    ensures
        final(o)@ == mirrored2(old(o)@, a@, k@, v@),
{
    if !v.is_null() {
        let mut inner = object_at(o, a);
        inner.set(k, v);
        o.set(a, Json::object(inner));
    }
}

/// Mirrors a value two levels down.
pub fn mirror3(o: &mut JsonMap, a: &str, b: &str, k: &str, v: Json)
    ensures
        final(o)@ == mirrored3(old(o)@, a@, b@, k@, v@),
{
    if !v.is_null() {
        let mut inner = object_at(o, a);
        let mut leaf = object_at(&inner, b);
        leaf.set(k, v);
        inner.set(b, Json::object(leaf));
        o.set(a, Json::object(inner));
    }
}

/// Mirrors all members of `m` at the top.
pub fn mirror_map(o: &mut JsonMap, m: &JsonMap)
    ensures
        final(o)@ == mirrored_map(old(o)@, m@, m@.len()),
{
    let ghost o0 = o@;
    let mut i: usize = 0;
    while i < m.entries.len()
        invariant
            i <= m.entries@.len(),
            o@ == mirrored_map(o0, m@, i as nat),
        decreases m.entries@.len() - i,
    {
        proof {
            assert(m@[i as int] == (m.entries@[i as int].0@, m.entries@[i as int].1@));
        }
        mirror(o, m.entries[i].0.as_str(), m.entries[i].1.copy());
        i += 1;
    }
}

/// Mirrors all members of `m` one level down.
pub fn mirror_map2(o: &mut JsonMap, a: &str, m: &JsonMap)
    ensures
        final(o)@ == mirrored_map2(old(o)@, a@, m@, m@.len()),
{
    let ghost o0 = o@;
    let mut i: usize = 0;
    while i < m.entries.len()
        invariant
            i <= m.entries@.len(),
            o@ == mirrored_map2(o0, a@, m@, i as nat),
        decreases m.entries@.len() - i,
    {
        proof {
            assert(m@[i as int] == (m.entries@[i as int].0@, m.entries@[i as int].1@));
        }
        mirror2(o, a, m.entries[i].0.as_str(), m.entries[i].1.copy());
        i += 1;
    }
}

/// Mirrors all members of `m` two levels down.
pub fn mirror_map3(o: &mut JsonMap, a: &str, b: &str, m: &JsonMap)
    ensures
        final(o)@ == mirrored_map3(old(o)@, a@, b@, m@, m@.len()),
{
    let ghost o0 = o@;
    let mut i: usize = 0;
    while i < m.entries.len()
        invariant
            i <= m.entries@.len(),
            o@ == mirrored_map3(o0, a@, b@, m@, i as nat),
        decreases m.entries@.len() - i,
    {
        proof {
            assert(m@[i as int] == (m.entries@[i as int].0@, m.entries@[i as int].1@));
        }
        mirror3(o, a, b, m.entries[i].0.as_str(), m.entries[i].1.copy());
        i += 1;
    }
}

} // verus!
