//! JSON values as the conversions see them.

use vstd::prelude::*;
use crate::model::{group_views, opt_view, views, Dup};
use crate::text::{text_is, str_eq};

verus! {

broadcast use group_views;

/// A JSON number. Integers are held as such; any other number is held as its
/// shortest decimal text.
#[derive(Debug, PartialEq, Eq)]
pub enum Num {
    PosInt(u64),
    NegInt(i64),
    Float(String),
}

/// The mathematical value of a [`Num`].
pub enum NumV {
    Int(int),
    Float(Seq<char>),
}

impl View for Num {
    type V = NumV;

    open spec fn view(&self) -> NumV {
        match self {
            Num::PosInt(n) => NumV::Int(*n as int),
            Num::NegInt(n) => NumV::Int(*n as int),
            Num::Float(s) => NumV::Float(s@),
        }
    }
}

/// A JSON value.
#[derive(Debug, PartialEq, Eq)]
pub enum Json {
    Null,
    Bool(bool),
    Number(Num),
    Str(String),
    Array(Vec<Json>),
    Object(JsonMap),
}

/// The members of a JSON object, in insertion order.
#[derive(Debug, PartialEq, Eq)]
pub struct JsonMap {
    pub entries: Vec<(String, Json)>,
}

/// The mathematical value of a [`Json`].
pub enum JsonV {
    Null,
    Bool(bool),
    Number(NumV),
    Str(Seq<char>),
    Array(Seq<JsonV>),
    Object(Seq<(Seq<char>, JsonV)>),
}

/// The members of an object, in order.
pub type ObjV = Seq<(Seq<char>, JsonV)>;

pub open spec fn json_view(j: Json) -> JsonV
    decreases j,
{
    match j {
        Json::Null => JsonV::Null,
        Json::Bool(b) => JsonV::Bool(b),
        Json::Number(n) => JsonV::Number(n@),
        Json::Str(s) => JsonV::Str(s@),
        Json::Array(v) => JsonV::Array(
            Seq::new(
                v@.len(),
                |i: int|
                    if 0 <= i < v@.len() {
                        json_view(v@[i])
                    } else {
                        JsonV::Null
                    },
            ),
        ),
        Json::Object(m) => JsonV::Object(
            Seq::new(
                m.entries@.len(),
                |i: int|
                    if 0 <= i < m.entries@.len() {
                        (m.entries@[i].0@, json_view(m.entries@[i].1))
                    } else {
                        (Seq::empty(), JsonV::Null)
                    },
            ),
        ),
    }
}

impl View for Json {
    type V = JsonV;

    open spec fn view(&self) -> JsonV {
        json_view(*self)
    }
}

impl View for JsonMap {
    type V = ObjV;

    open spec fn view(&self) -> ObjV {
        views(self.entries@)
    }
}

pub broadcast proof fn json_view_array(v: Vec<Json>)
    ensures
        #[trigger] json_view(Json::Array(v)) == JsonV::Array(views(v@)),
{
    assert(json_view(Json::Array(v))->Array_0 =~= views(v@));
}

pub broadcast proof fn json_view_object(m: JsonMap)
    ensures
        #[trigger] json_view(Json::Object(m)) == JsonV::Object(m@),
{
    assert(json_view(Json::Object(m))->Object_0 =~= m@);
}

pub broadcast group group_json {
    json_view_array,
    json_view_object,
}

impl Num {
    /// A copy of this number.
    pub fn copy(&self) -> (r: Num)
        ensures
            r@ == self@,
    {
        match self {
            Num::PosInt(n) => Num::PosInt(*n),
            Num::NegInt(n) => Num::NegInt(*n),
            Num::Float(s) => Num::Float(s.clone()),
        }
    }
}

impl Json {
    /// A copy of this value.
    pub fn copy(&self) -> (r: Json)
        ensures
            r@ == self@,
        decreases self,
    {
        broadcast use group_json;
        match self {
            Json::Null => Json::Null,
            Json::Bool(b) => Json::Bool(*b),
            Json::Number(n) => Json::Number(n.copy()),
            Json::Str(s) => Json::Str(s.clone()),
            Json::Array(v) => {
                let mut out: Vec<Json> = Vec::new();
                let mut i: usize = 0;
                while i < v.len()
                    invariant
                        i <= v@.len(),
                        *self == Json::Array(*v),
                        views(out@) == views(v@).take(i as int),
                    decreases v@.len() - i,
                {
                    proof {
                        assert(decreases_to!(*self => self->Array_0));
                        assert(decreases_to!(*v => v@[i as int]));
                    }
                    let x = v[i].copy();
                    out.push(x);
                    proof {
                        assert(views(v@).take(i as int + 1) =~= views(v@).take(i as int).push(views(v@)[i as int]));
                    }
                    i += 1;
                }
                proof {
                    assert(views(v@).take(i as int) =~= views(v@));
                }
                Json::Array(out)
            },
            Json::Object(m) => {
                let mut out: Vec<(String, Json)> = Vec::new();
                let mut i: usize = 0;
                while i < m.entries.len()
                    invariant
                        i <= m.entries@.len(),
                        *self == Json::Object(*m),
                        views(out@) == m@.take(i as int),
                    decreases m.entries@.len() - i,
                {
                    let k = m.entries[i].0.clone();
                    proof {
                        assert(decreases_to!(*self => self->Object_0));
                        assert(decreases_to!(m.entries => m.entries@[i as int]));
                        assert(decreases_to!(m.entries@[i as int] => m.entries@[i as int].1));
                    }
                    let x = m.entries[i].1.copy();
                    out.push((k, x));
                    proof {
                        assert(m@.take(i as int + 1) =~= m@.take(i as int).push(m@[i as int]));
                    }
                    i += 1;
                }
                proof {
                    assert(m@.take(i as int) =~= m@);
                }
                Json::Object(JsonMap { entries: out })
            },
        }
    }
}


/// Position of the first member named `k` at or after `i`; the length when
/// there is none.
pub open spec fn obj_index_from(o: ObjV, k: Seq<char>, i: int) -> int
    decreases o.len() - i,
{
    if i < 0 || i >= o.len() {
        o.len() as int
    } else if o[i].0 == k {
        i
    } else {
        obj_index_from(o, k, i + 1)
    }
}

/// Position of the member named `k`; the length when there is none.
#[verifier::opaque]
pub open spec fn obj_index(o: ObjV, k: Seq<char>) -> int {
    obj_index_from(o, k, 0)
}

/// `o` has a member named `k`.
pub open spec fn obj_has(o: ObjV, k: Seq<char>) -> bool {
    obj_get(o, k) is Some
}

/// The value of the member named `k`.
#[verifier::opaque]
pub open spec fn obj_get(o: ObjV, k: Seq<char>) -> Option<JsonV> {
    let i = obj_index(o, k);
    if i < o.len() {
        Some(o[i].1)
    } else {
        None
    }
}

/// `o` with member `k` set to `v`: replaced in place, or appended.
#[verifier::opaque]
pub open spec fn obj_set(o: ObjV, k: Seq<char>, v: JsonV) -> ObjV {
    let i = obj_index(o, k);
    if i < o.len() {
        o.update(i, (k, v))
    } else {
        o.push((k, v))
    }
}

/// `o` without member `k`, the other members keeping their order.
#[verifier::opaque]
pub open spec fn obj_remove(o: ObjV, k: Seq<char>) -> ObjV {
    let i = obj_index(o, k);
    if i < o.len() {
        o.remove(i)
    } else {
        o
    }
}

/// No two members share a name.
pub open spec fn obj_wf(o: ObjV) -> bool {
    forall|i: int, j: int| 0 <= i < j < o.len() ==> #[trigger] o[i].0 != #[trigger] o[j].0
}

/// Where the search for a name ends.
pub proof fn obj_index_from_props(o: ObjV, k: Seq<char>, i: int)
    requires
        0 <= i <= o.len(),
    ensures
        i <= obj_index_from(o, k, i) <= o.len(),
        obj_index_from(o, k, i) < o.len() ==> o[obj_index_from(o, k, i)].0 == k,
        forall|j: int| i <= j < obj_index_from(o, k, i) ==> #[trigger] o[j].0 != k,
    decreases o.len() - i,
{
    if i < o.len() && o[i].0 != k {
        obj_index_from_props(o, k, i + 1);
    }
}

/// `obj_index` is the first position that holds the name, if any does.
pub broadcast proof fn obj_index_props(o: ObjV, k: Seq<char>)
    ensures
        0 <= #[trigger] obj_index(o, k) <= o.len(),
        obj_index(o, k) < o.len() ==> o[obj_index(o, k)].0 == k,
        forall|j: int| 0 <= j < obj_index(o, k) ==> #[trigger] o[j].0 != k,
{
    reveal(obj_index);
    obj_index_from_props(o, k, 0);
}

impl JsonMap {
    /// An object without members.
    pub fn new() -> (r: JsonMap)
        ensures
            r@ == Seq::<(Seq<char>, JsonV)>::empty(),
    {
        JsonMap { entries: Vec::new() }
    }

    /// Number of members.
    pub fn len(&self) -> (r: usize)
        ensures
            r == self@.len(),
    {
        self.entries.len()
    }

    /// `true` when there are no members.
    pub fn is_empty(&self) -> (r: bool)
        ensures
            r == (self@.len() == 0),
    {
        self.entries.len() == 0
    }

    /// Position of member `k`; the length when there is none.
    pub fn index_of(&self, k: &str) -> (r: usize)
        ensures
            r as int == obj_index(self@, k@),
            r <= self.entries@.len(),
    {
        reveal(obj_index);
        let mut i: usize = 0;
        while i < self.entries.len()
            invariant
                i <= self.entries@.len(),
                obj_index(self@, k@) == obj_index_from(self@, k@, i as int),
            decreases self.entries@.len() - i,
        {
            proof {
                assert(self@[i as int].0 == self.entries@[i as int].0@);
            }
            if text_is(&self.entries[i].0, k) {
                return i;
            }
            i += 1;
        }
        i
    }

    /// The value of the member named `k`.
    pub fn get(&self, k: &str) -> (r: Option<&Json>)
        ensures
            opt_view(r) == obj_get(self@, k@),
    {
        reveal(obj_get);
        let i = self.index_of(k);
        if i < self.entries.len() {
            Some(&self.entries[i].1)
        } else {
            None
        }
    }

    /// `true` when there is a member named `k`.
    pub fn contains_key(&self, k: &str) -> (r: bool)
        ensures
            r == obj_has(self@, k@),
    {
        self.get(k).is_some()
    }

    /// Sets member `k`: replaced in place, or appended.
    pub fn set(&mut self, k: &str, v: Json)
        ensures
            final(self)@ == obj_set(old(self)@, k@, v@),
    {
        reveal(obj_set);
        broadcast use obj_index_props;
        let i = self.index_of(k);
        let e = (k.to_owned(), v);
        if i < self.entries.len() {
            self.entries[i] = e;
        } else {
            self.entries.push(e);
        }
    }

    /// Removes member `k`, the others keeping their order.
    pub fn remove(&mut self, k: &str) -> (r: Option<Json>)
        ensures
            final(self)@ == obj_remove(old(self)@, k@),
            opt_view(r) == obj_get(old(self)@, k@),
    {
        reveal(obj_remove);
        reveal(obj_get);
        let i = self.index_of(k);
        if i < self.entries.len() {
            let e = self.entries.remove(i);
            proof {
                assert(self@ =~= old(self)@.remove(i as int));
            }
            Some(e.1)
        } else {
            None
        }
    }

    /// A copy of these members.
    pub fn copy(&self) -> (r: JsonMap)
        ensures
            r@ == self@,
    {
        let mut out: Vec<(String, Json)> = Vec::new();
        let mut i: usize = 0;
        while i < self.entries.len()
            invariant
                i <= self.entries@.len(),
                views(out@) == self@.take(i as int),
            decreases self.entries@.len() - i,
        {
            let k = self.entries[i].0.clone();
            let x = self.entries[i].1.copy();
            out.push((k, x));
            proof {
                assert(self@.take(i as int + 1) =~= self@.take(i as int).push(self@[i as int]));
            }
            i += 1;
        }
        proof {
            assert(self@.take(i as int) =~= self@);
        }
        JsonMap { entries: out }
    }
}

/// The member named `k` of an object; nothing for any other value.
pub open spec fn json_get(j: JsonV, k: Seq<char>) -> Option<JsonV> {
    match j {
        JsonV::Object(o) => obj_get(o, k),
        _ => None,
    }
}

/// The text of a string value.
pub open spec fn json_as_str(j: Option<JsonV>) -> Option<Seq<char>> {
    match j {
        Some(JsonV::Str(s)) => Some(s),
        _ => None,
    }
}

/// The truth value of a boolean.
pub open spec fn json_as_bool(j: Option<JsonV>) -> Option<bool> {
    match j {
        Some(JsonV::Bool(b)) => Some(b),
        _ => None,
    }
}

/// The value as an unsigned 64-bit integer.
pub open spec fn json_as_u64(j: Option<JsonV>) -> Option<u64> {
    match j {
        Some(JsonV::Number(NumV::Int(n))) => if 0 <= n <= u64::MAX {
            Some(n as u64)
        } else {
            None
        },
        _ => None,
    }
}

/// The value as a signed 64-bit integer.
pub open spec fn json_as_i64(j: Option<JsonV>) -> Option<i64> {
    match j {
        Some(JsonV::Number(NumV::Int(n))) => if i64::MIN <= n <= i64::MAX {
            Some(n as i64)
        } else {
            None
        },
        _ => None,
    }
}

/// The elements of an array.
pub open spec fn json_as_array(j: Option<JsonV>) -> Option<Seq<JsonV>> {
    match j {
        Some(JsonV::Array(a)) => Some(a),
        _ => None,
    }
}

/// The members of an object.
pub open spec fn json_as_object(j: Option<JsonV>) -> Option<ObjV> {
    match j {
        Some(JsonV::Object(o)) => Some(o),
        _ => None,
    }
}

impl Num {
    /// The number as an unsigned 64-bit integer.
    pub fn as_u64(&self) -> (r: Option<u64>)
        ensures
            r == json_as_u64(Some(JsonV::Number(self@))),
    {
        match self {
            Num::PosInt(n) => Some(*n),
            Num::NegInt(n) => if *n >= 0 { Some(*n as u64) } else { None },
            Num::Float(_) => None,
        }
    }

    /// The number as a signed 64-bit integer.
    pub fn as_i64(&self) -> (r: Option<i64>)
        ensures
            r == json_as_i64(Some(JsonV::Number(self@))),
    {
        match self {
            Num::PosInt(n) => if *n <= i64::MAX as u64 { Some(*n as i64) } else { None },
            Num::NegInt(n) => Some(*n),
            Num::Float(_) => None,
        }
    }

    /// `true` when both are the same number.
    pub fn same(&self, other: &Num) -> (r: bool)
        ensures
            r == (self@ == other@),
    {
        match (self, other) {
            (Num::Float(a), Num::Float(b)) => str_eq(a.as_str(), b.as_str()),
            (Num::PosInt(a), Num::PosInt(b)) => *a == *b,
            (Num::NegInt(a), Num::NegInt(b)) => *a == *b,
            (Num::PosInt(a), Num::NegInt(b)) => *b >= 0 && *a == *b as u64,
            (Num::NegInt(a), Num::PosInt(b)) => *a >= 0 && *a as u64 == *b,
            _ => false,
        }
    }
}

impl Json {
    /// A string value.
    pub fn text(s: &str) -> (r: Json)
        ensures
            r@ == JsonV::Str(s@),
    {
        Json::Str(s.to_owned())
    }

    /// An unsigned integer value.
    pub fn uint(n: u64) -> (r: Json)
        ensures
            r@ == JsonV::Number(NumV::Int(n as int)),
    {
        Json::Number(Num::PosInt(n))
    }

    /// A signed integer value.
    pub fn sint(n: i64) -> (r: Json)
        ensures
            r@ == JsonV::Number(NumV::Int(n as int)),
    {
        if n >= 0 {
            Json::Number(Num::PosInt(n as u64))
        } else {
            Json::Number(Num::NegInt(n))
        }
    }

    /// An array value.
    pub fn array(v: Vec<Json>) -> (r: Json)
        ensures
            r@ == JsonV::Array(views(v@)),
    {
        broadcast use group_json;
        Json::Array(v)
    }

    /// An object value.
    pub fn object(m: JsonMap) -> (r: Json)
        ensures
            r@ == JsonV::Object(m@),
    {
        broadcast use group_json;
        Json::Object(m)
    }

    /// The member named `k` of an object; nothing for any other value.
    pub fn get(&self, k: &str) -> (r: Option<&Json>)
        ensures
            opt_view(r) == json_get(self@, k@),
    {
        broadcast use group_json;
        match self {
            Json::Object(m) => m.get(k),
            _ => None,
        }
    }

    /// The text of a string value.
    pub fn as_str(&self) -> (r: Option<&String>)
        ensures
            opt_view(r) == json_as_str(Some(self@)),
    {
        match self {
            Json::Str(s) => Some(s),
            _ => None,
        }
    }

    /// The truth value of a boolean.
    pub fn as_bool(&self) -> (r: Option<bool>)
        ensures
            r == json_as_bool(Some(self@)),
    {
        match self {
            Json::Bool(b) => Some(*b),
            _ => None,
        }
    }

    /// The value as an unsigned 64-bit integer.
    pub fn as_u64(&self) -> (r: Option<u64>)
        ensures
            r == json_as_u64(Some(self@)),
    {
        match self {
            Json::Number(n) => n.as_u64(),
            _ => None,
        }
    }

    /// The value as a signed 64-bit integer.
    pub fn as_i64(&self) -> (r: Option<i64>)
        ensures
            r == json_as_i64(Some(self@)),
    {
        match self {
            Json::Number(n) => n.as_i64(),
            _ => None,
        }
    }

    /// The elements of an array.
    pub fn as_array(&self) -> (r: Option<&Vec<Json>>)
        ensures
            match r {
                Some(v) => json_as_array(Some(self@)) == Some(views(v@)),
                None => json_as_array(Some(self@)) is None,
            },
    {
        broadcast use group_json;
        match self {
            Json::Array(v) => Some(v),
            _ => None,
        }
    }

    /// The members of an object.
    pub fn as_object(&self) -> (r: Option<&JsonMap>)
        ensures
            opt_view(r) == json_as_object(Some(self@)),
    {
        broadcast use group_json;
        match self {
            Json::Object(m) => Some(m),
            _ => None,
        }
    }

    /// `true` for the null value.
    pub fn is_null(&self) -> (r: bool)
        ensures
            r == (self@ is Null),
    {
        matches!(self, Json::Null)
    }

    /// `true` when both are the same value, object members in the same order.
    pub fn same(&self, other: &Json) -> (r: bool)
        ensures
            r == (self@ == other@),
        decreases self,
    {
        broadcast use group_json;
        match (self, other) {
            (Json::Null, Json::Null) => true,
            (Json::Bool(a), Json::Bool(b)) => *a == *b,
            (Json::Number(a), Json::Number(b)) => a.same(b),
            (Json::Str(a), Json::Str(b)) => str_eq(a.as_str(), b.as_str()),
            (Json::Array(a), Json::Array(b)) => {
                proof {
                    json_view_array(*a);
                    json_view_array(*b);
                }
                if a.len() != b.len() {
                    proof {
                        assert(views(a@).len() != views(b@).len());
                    }
                    return false;
                }
                let mut i: usize = 0;
                while i < a.len()
                    invariant
                        i <= a@.len() == b@.len(),
                        *self == Json::Array(*a),
                        *other == Json::Array(*b),
                        self@ == JsonV::Array(views(a@)),
                        other@ == JsonV::Array(views(b@)),
                        forall|j: int| 0 <= j < i ==> views(a@)[j] == views(b@)[j],
                    decreases a@.len() - i,
                {
                    proof {
                        assert(decreases_to!(*self => self->Array_0));
                        assert(decreases_to!(*a => a@[i as int]));
                    }
                    if !a[i].same(&b[i]) {
                        proof {
                            assert(views(a@)[i as int] != views(b@)[i as int]);
                        }
                        return false;
                    }
                    i += 1;
                }
                proof {
                    assert(views(a@) =~= views(b@));
                }
                true
            },
            (Json::Object(a), Json::Object(b)) => {
                proof {
                    json_view_object(*a);
                    json_view_object(*b);
                }
                if a.entries.len() != b.entries.len() {
                    proof {
                        assert(a@.len() != b@.len());
                    }
                    return false;
                }
                let mut i: usize = 0;
                while i < a.entries.len()
                    invariant
                        i <= a.entries@.len() == b.entries@.len(),
                        *self == Json::Object(*a),
                        *other == Json::Object(*b),
                        self@ == JsonV::Object(a@),
                        other@ == JsonV::Object(b@),
                        forall|j: int| 0 <= j < i ==> a@[j] == b@[j],
                    decreases a.entries@.len() - i,
                {
                    proof {
                        assert(decreases_to!(*self => self->Object_0));
                        assert(decreases_to!(a.entries => a.entries@[i as int]));
                        assert(decreases_to!(a.entries@[i as int] => a.entries@[i as int].1));
                    }
                    let eq_key = str_eq(a.entries[i].0.as_str(), b.entries[i].0.as_str());
                    if !eq_key || !a.entries[i].1.same(&b.entries[i].1) {
                        proof {
                            assert(a@[i as int] != b@[i as int]);
                        }
                        return false;
                    }
                    i += 1;
                }
                proof {
                    assert(a@ =~= b@);
                }
                true
            },
            _ => false,
        }
    }
}


impl Dup for Num {
    fn dup(&self) -> (r: Self) {
        self.copy()
    }
}

impl Dup for Json {
    fn dup(&self) -> (r: Self) {
        self.copy()
    }
}

impl Dup for JsonMap {
    fn dup(&self) -> (r: Self) {
        self.copy()
    }
}


/// An object with one member.
pub open spec fn object1(k: Seq<char>, v: JsonV) -> JsonV {
    JsonV::Object(seq![(k, v)])
}

/// An object with two members.
pub open spec fn object2(k1: Seq<char>, v1: JsonV, k2: Seq<char>, v2: JsonV) -> JsonV {
    JsonV::Object(seq![(k1, v1), (k2, v2)])
}

/// An object with three members.
pub open spec fn object3(
    k1: Seq<char>,
    v1: JsonV,
    k2: Seq<char>,
    v2: JsonV,
    k3: Seq<char>,
    v3: JsonV,
) -> JsonV {
    JsonV::Object(seq![(k1, v1), (k2, v2), (k3, v3)])
}

/// An object with member `k` set; any other value is left as it is.
pub open spec fn with_member(j: JsonV, k: Seq<char>, v: JsonV) -> JsonV {
    match j {
        JsonV::Object(o) => JsonV::Object(obj_set(o, k, v)),
        _ => j,
    }
}

/// `o` with member `k` set, where there is a value.
pub open spec fn put_if(o: ObjV, k: Seq<char>, v: Option<JsonV>) -> ObjV {
    match v {
        Some(v) => obj_set(o, k, v),
        None => o,
    }
}

/// Sets member `k`, where there is a value.
pub fn put_opt(o: &mut JsonMap, k: &str, v: Option<Json>)
    ensures
        final(o)@ == put_if(old(o)@, k@, opt_view(v)),
{
    if let Some(v) = v {
        o.set(k, v);
    }
}

/// An unsigned integer value.
pub open spec fn json_int(n: int) -> JsonV {
    JsonV::Number(NumV::Int(n))
}

/// An object with one member.
pub fn make1(k: &str, v: Json) -> (r: Json)
    ensures
        r@ == object1(k@, v@),
{
    let mut e: Vec<(String, Json)> = Vec::new();
    e.push((k.to_owned(), v));
    proof {
        assert(views(e@) =~= seq![(k@, v@)]);
    }
    Json::object(JsonMap { entries: e })
}

/// An object with two members.
pub fn make2(k1: &str, v1: Json, k2: &str, v2: Json) -> (r: Json)
    ensures
        r@ == object2(k1@, v1@, k2@, v2@),
{
    let mut e: Vec<(String, Json)> = Vec::new();
    e.push((k1.to_owned(), v1));
    e.push((k2.to_owned(), v2));
    proof {
        assert(views(e@) =~= seq![(k1@, v1@), (k2@, v2@)]);
    }
    Json::object(JsonMap { entries: e })
}

/// An object with three members.
pub fn make3(k1: &str, v1: Json, k2: &str, v2: Json, k3: &str, v3: Json) -> (r: Json)
    ensures
        r@ == object3(k1@, v1@, k2@, v2@, k3@, v3@),
{
    let mut e: Vec<(String, Json)> = Vec::new();
    e.push((k1.to_owned(), v1));
    e.push((k2.to_owned(), v2));
    e.push((k3.to_owned(), v3));
    proof {
        assert(views(e@) =~= seq![(k1@, v1@), (k2@, v2@), (k3@, v3@)]);
    }
    Json::object(JsonMap { entries: e })
}

/// An array of strings.
pub open spec fn json_strings(s: Seq<Seq<char>>) -> JsonV {
    JsonV::Array(s.map_values(|t: Seq<char>| JsonV::Str(t)))
}

/// An array of strings.
pub fn make_strings(v: &Vec<String>) -> (r: Json)
    ensures
        r@ == json_strings(views(v@)),
{
    let mut out: Vec<Json> = Vec::new();
    let ghost all = views(v@).map_values(|t: Seq<char>| JsonV::Str(t));
    let mut i: usize = 0;
    while i < v.len()
        invariant
            i <= v@.len(),
            all == views(v@).map_values(|t: Seq<char>| JsonV::Str(t)),
            views(out@) == all.take(i as int),
        decreases v@.len() - i,
    {
        out.push(Json::Str(v[i].clone()));
        proof {
            assert(all.take(i as int + 1) =~= all.take(i as int).push(all[i as int]));
        }
        i += 1;
    }
    proof {
        assert(all.take(i as int) =~= all);
    }
    Json::array(out)
}

impl Json {
    /// Sets member `k` of an object; any other value is left as it is.
    pub fn put(&mut self, k: &str, v: Json)
        ensures
            final(self)@ == with_member(old(self)@, k@, v@),
    {
        broadcast use group_json;
        match self {
            Json::Object(m) => {
                m.set(k, v);
            },
            _ => {},
        }
    }
}

} // verus!
