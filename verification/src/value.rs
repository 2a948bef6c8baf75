//! The boundary with `serde_json`: bytes and text to [`Json`] and back.

use vstd::prelude::*;
use crate::json::{group_json, json_view_array, json_view_object, obj_index, obj_index_props, obj_set, obj_wf, Json, JsonMap, JsonV, Num, NumV, ObjV};
use crate::model::{group_views, opt_view, views};
use crate::text::{cat2, dec, decimal};

verus! {

broadcast use group_views;

#[verifier::external_type_specification]
#[verifier::external_body]
pub struct ExValue(serde_json::Value);

#[verifier::external_type_specification]
#[verifier::external_body]
pub struct ExNumber(serde_json::Number);

/// What a `serde_json::Value` holds.
pub uninterp spec fn value_json(v: serde_json::Value) -> JsonV;

/// What a `serde_json::Number` holds.
pub uninterp spec fn number_num(n: serde_json::Number) -> NumV;

/// The text that `serde_json` prints for the finite floating-point number
/// that `text` denotes; nothing when it denotes none.
pub uninterp spec fn float_text(text: Seq<char>) -> Option<Seq<char>>;

/// What `serde_json::from_slice` reads from `bytes`, or its error message.
pub uninterp spec fn json_from_slice(bytes: Seq<u8>) -> Result<JsonV, Seq<char>>;

/// What `serde_json::from_str` reads from `text`, or its error message.
pub uninterp spec fn json_from_str(text: Seq<char>) -> Result<JsonV, Seq<char>>;

/// The bytes that `serde_json::to_vec` writes for `j`.
pub uninterp spec fn json_to_bytes(j: JsonV) -> Seq<u8>;

/// The text that `serde_json::Value::to_string` writes for `j`.
pub uninterp spec fn json_to_text(j: JsonV) -> Seq<char>;

/// One level of a `serde_json::Value`.
pub enum Node {
    Null,
    Bool(bool),
    Number(serde_json::Number),
    Str(String),
    Array(Vec<serde_json::Value>),
    Object(Vec<(String, serde_json::Value)>),
}

/// The members that `Map::from_iter` keeps of the first `n` pairs: a later
/// pair replaces the value of an earlier one with the same name.
pub open spec fn collected(s: ObjV, n: nat) -> ObjV
    decreases n,
{
    if n == 0 || n > s.len() {
        Seq::empty()
    } else {
        obj_set(collected(s, (n - 1) as nat), s[n - 1].0, s[n - 1].1)
    }
}

/// The values of the elements.
pub open spec fn values(s: Seq<serde_json::Value>) -> Seq<JsonV> {
    s.map_values(|v: serde_json::Value| value_json(v))
}

/// The names and values of the members.
pub open spec fn members(s: Seq<(String, serde_json::Value)>) -> ObjV {
    s.map_values(|p: (String, serde_json::Value)| (p.0@, value_json(p.1)))
}

/// JSON that is written and read without loss: no floating-point number,
/// integers that fit 64 bits, one member per name, and at most `depth` levels
/// of nesting.
pub open spec fn exact_json(j: JsonV, depth: nat) -> bool
    decreases j,
{
    match j {
        JsonV::Null => true,
        JsonV::Bool(_) => true,
        JsonV::Str(_) => true,
        JsonV::Number(NumV::Int(i)) => i64::MIN <= i <= u64::MAX,
        JsonV::Number(NumV::Float(_)) => false,
        JsonV::Array(a) => depth > 0 && forall|i: int|
            0 <= i < a.len() ==> exact_json(#[trigger] a[i], (depth - 1) as nat),
        JsonV::Object(o) => depth > 0 && obj_wf(o) && forall|i: int|
            0 <= i < o.len() ==> exact_json((#[trigger] o[i]).1, (depth - 1) as nat),
    }
}

/// Takes a `serde_json::Value` apart: each variant of the enum becomes the
/// variant of [`Node`] with the same contents; the entries of a `Map` come
/// out in its iteration order.
#[verifier::external_body]
fn open_value(v: serde_json::Value) -> (r: Node)
    ensures
        match r {
            Node::Null => value_json(v) == JsonV::Null,
            Node::Bool(b) => value_json(v) == JsonV::Bool(b),
            Node::Number(n) => value_json(v) == JsonV::Number(number_num(n)),
            Node::Str(s) => value_json(v) == JsonV::Str(s@),
            Node::Array(a) => value_json(v) == JsonV::Array(values(a@)),
            Node::Object(m) => value_json(v) == JsonV::Object(members(m@)),
        },
{
    match v {
        serde_json::Value::Null => Node::Null,
        serde_json::Value::Bool(b) => Node::Bool(b),
        serde_json::Value::Number(n) => Node::Number(n),
        serde_json::Value::String(s) => Node::Str(s),
        serde_json::Value::Array(a) => Node::Array(a),
        serde_json::Value::Object(m) => Node::Object(m.into_iter().collect()),
    }
}

/// Builds a `serde_json::Value` of the variant that [`Node`] names; a `Map` is
/// collected from its pairs in order.
#[verifier::external_body]
fn close_value(n: Node) -> (r: serde_json::Value)
    ensures
        match n {
            Node::Null => value_json(r) == JsonV::Null,
            Node::Bool(b) => value_json(r) == JsonV::Bool(b),
            Node::Number(n) => value_json(r) == JsonV::Number(number_num(n)),
            Node::Str(s) => value_json(r) == JsonV::Str(s@),
            Node::Array(a) => value_json(r) == JsonV::Array(values(a@)),
            Node::Object(m) => value_json(r) == JsonV::Object(collected(members(m@), m@.len())),
        },
{
    match n {
        Node::Null => serde_json::Value::Null,
        Node::Bool(b) => serde_json::Value::Bool(b),
        Node::Number(n) => serde_json::Value::Number(n),
        Node::Str(s) => serde_json::Value::String(s),
        Node::Array(a) => serde_json::Value::Array(a),
        Node::Object(m) => serde_json::Value::Object(m.into_iter().collect()),
    }
}

/// Takes a `serde_json::Number` apart: `as_u64` answers for the non-negative
/// integers, `as_i64` for the negative ones, and what is left is a
/// floating-point number, of which `Display` gives the text.
#[verifier::external_body]
fn open_number(n: serde_json::Number) -> (r: Num)
    ensures
        r@ == number_num(n),
{
    match (n.as_u64(), n.as_i64()) {
        (Some(u), _) => Num::PosInt(u),
        (None, Some(i)) => Num::NegInt(i),
        (None, None) => Num::Float(n.to_string()),
    }
}

/// `Number::from` an unsigned integer holds that integer.
#[verifier::external_body]
fn number_from_u64(n: u64) -> (r: serde_json::Number)
    ensures
        number_num(r) == NumV::Int(n as int),
{
    serde_json::Number::from(n)
}

/// `Number::from` a signed integer holds that integer.
#[verifier::external_body]
fn number_from_i64(n: i64) -> (r: serde_json::Number)
    ensures
        number_num(r) == NumV::Int(n as int),
{
    serde_json::Number::from(n)
}

/// `Number::from_f64` of the number that `text` denotes: nothing when the
/// text denotes no finite number, else a number that prints as `float_text`.
#[verifier::external_body]
fn number_from_float(text: &str) -> (r: Option<serde_json::Number>)
    ensures
        match r {
            Some(n) => float_text(text@) is Some && number_num(n) == NumV::Float(float_text(text@)->0),
            None => float_text(text@) is None,
        },
{
    text.parse().ok().and_then(serde_json::Number::from_f64)
}

/// `serde_json::from_slice` into a `Value`; the error is its message. What
/// `to_vec` wrote of an exact value is read as that value: strings, integers
/// and the order of members survive, and 127 levels of nesting stay below the
/// recursion limit of 128. Nothing is said of values with floating-point
/// numbers, whose parse may be off in the last place. Of members with the same
/// name the last value counts, in the place of the first.
#[verifier::external_body]
fn read_slice(bytes: &[u8]) -> (r: Result<serde_json::Value, String>)
    ensures
        match r {
            Ok(v) => json_from_slice(bytes@) == Ok::<JsonV, Seq<char>>(value_json(v)),
            Err(e) => json_from_slice(bytes@) == Err::<JsonV, Seq<char>>(e@),
        },
        forall|j: JsonV|
            exact_json(j, 127) && bytes@ == #[trigger] json_to_bytes(j) ==> match r {
                Ok(v) => value_json(v) == j,
                Err(_) => false,
            },
{
    serde_json::from_slice(bytes).map_err(|e| e.to_string())
}

/// `serde_json::from_str` into a `Value`; the error is its message. What
/// `to_string` wrote of an exact value is read as that value, as in
/// [`read_slice`].
#[verifier::external_body]
fn read_str(text: &str) -> (r: Result<serde_json::Value, String>)
    ensures
        match r {
            Ok(v) => json_from_str(text@) == Ok::<JsonV, Seq<char>>(value_json(v)),
            Err(e) => json_from_str(text@) == Err::<JsonV, Seq<char>>(e@),
        },
        forall|j: JsonV|
            exact_json(j, 127) && text@ == #[trigger] json_to_text(j) ==> match r {
                Ok(v) => value_json(v) == j,
                Err(_) => false,
            },
{
    serde_json::from_str(text).map_err(|e| e.to_string())
}

/// `serde_json::to_vec` of a `Value`, which cannot fail: every key is a
/// string.
#[verifier::external_body]
fn write_vec(v: &serde_json::Value) -> (r: Vec<u8>)
    ensures
        r@ == json_to_bytes(value_json(*v)),
{
    serde_json::to_vec(v).expect("JSON value serializes")
}

/// `Value::to_string`: the compact JSON text of a `Value`.
#[verifier::external_body]
fn write_string(v: &serde_json::Value) -> (r: String)
    ensures
        r@ == json_to_text(value_json(*v)),
{
    v.to_string()
}

/// Reads a `serde_json::Value`.
pub fn json_of_value(v: serde_json::Value) -> (r: Json)
    ensures
        r@ == value_json(v),
    decreases value_json(v),
{
    broadcast use group_json;
    let ghost whole = value_json(v);
    match open_value(v) {
        Node::Null => Json::Null,
        Node::Bool(b) => Json::Bool(b),
        Node::Number(n) => Json::Number(open_number(n)),
        Node::Str(s) => Json::Str(s),
        Node::Array(a) => {
            let ghost all = a@;
            let mut out: Vec<Json> = Vec::new();
            for x in it: a
                invariant
                    value_json(v) == JsonV::Array(values(all)),
                    whole == value_json(v),
                    it.seq() == all,
                    views(out@) == values(all).take(it.index() as int),
            {
                let ghost i = it.index() as int;
                proof {
                    assert(x == all[i]);
                    assert(values(all)[i] == value_json(x));
                    assert(decreases_to!(whole => whole->Array_0));
                    assert(decreases_to!(values(all) => values(all)[i]));
                    assert(values(all).take(i + 1) =~= values(all).take(i).push(values(all)[i]));
                }
                out.push(json_of_value(x));
            }
            proof {
                assert(values(all).take(all.len() as int) =~= values(all));
            }
            Json::array(out)
        },
        Node::Object(m) => {
            let ghost all = m@;
            let mut out: Vec<(String, Json)> = Vec::new();
            for x in it: m
                invariant
                    value_json(v) == JsonV::Object(members(all)),
                    whole == value_json(v),
                    it.seq() == all,
                    views(out@) == members(all).take(it.index() as int),
            {
                let ghost i = it.index() as int;
                proof {
                    assert(x == all[i]);
                    assert(members(all)[i] == (x.0@, value_json(x.1)));
                    assert(decreases_to!(whole => whole->Object_0));
                    assert(decreases_to!(members(all) => members(all)[i]));
                    assert(decreases_to!(members(all)[i] => members(all)[i].1));
                    assert(members(all).take(i + 1) =~= members(all).take(i).push(members(all)[i]));
                }
                let j = json_of_value(x.1);
                out.push((x.0, j));
            }
            proof {
                assert(members(all).take(all.len() as int) =~= members(all));
            }
            Json::object(JsonMap { entries: out })
        },
    }
}


/// What `j` becomes on the wire: a floating-point text as `serde_json` prints
/// it (`null` when it denotes no finite number), and every object with one
/// member per name.
pub open spec fn wire(j: JsonV) -> JsonV
    decreases j,
{
    match j {
        JsonV::Number(NumV::Float(t)) => match float_text(t) {
            Some(s) => JsonV::Number(NumV::Float(s)),
            None => JsonV::Null,
        },
        JsonV::Array(a) => JsonV::Array(
            Seq::new(
                a.len(),
                |i: int|
                    if 0 <= i < a.len() {
                        wire(a[i])
                    } else {
                        JsonV::Null
                    },
            ),
        ),
        JsonV::Object(o) => {
            let s = wire_members(o);
            JsonV::Object(collected(s, s.len()))
        },
        _ => j,
    }
}

proof fn distinct_members_are_kept(s: ObjV, n: nat)
    requires
        obj_wf(s),
        n <= s.len(),
    ensures
        collected(s, n) == s.take(n as int),
    decreases n,
{
    if n == 0 {
        assert(s.take(0) =~= Seq::<(Seq<char>, JsonV)>::empty());
    } else {
        let prev = s.take(n - 1);
        distinct_members_are_kept(s, (n - 1) as nat);
        broadcast use obj_index_props;
        reveal(obj_set);
        let k = s[n - 1].0;
        if obj_index(prev, k) < prev.len() {
            assert(prev[obj_index(prev, k)].0 == k);
            assert(s[obj_index(prev, k)].0 != s[n - 1].0);
        }
        assert(prev.push(s[n - 1]) =~= s.take(n as int));
    }
}

/// An exact value is written as it is.
pub proof fn exact_values_are_written_as_they_are(j: JsonV, depth: nat)
    requires
        exact_json(j, depth),
    ensures
        wire(j) == j,
    decreases j,
{
    match j {
        JsonV::Array(a) => {
            let w = wire(j)->Array_0;
            assert forall|i: int| 0 <= i < a.len() implies w[i] == a[i] by {
                assert(exact_json(a[i], (depth - 1) as nat));
                exact_values_are_written_as_they_are(a[i], (depth - 1) as nat);
            }
            assert(w =~= a);
        },
        JsonV::Object(o) => {
            let w = wire_members(o);
            assert forall|i: int| 0 <= i < o.len() implies w[i] == o[i] by {
                assert(exact_json(o[i].1, (depth - 1) as nat));
                assert(decreases_to!(o => o[i]));
                assert(decreases_to!(o[i] => o[i].1));
                exact_values_are_written_as_they_are(o[i].1, (depth - 1) as nat);
            }
            assert(w =~= o);
            distinct_members_are_kept(o, o.len());
            assert(o.take(o.len() as int) =~= o);
        },
        _ => {},
    }
}

/// A sampling parameter in the form that a parse gives it.
pub open spec fn plain_number(n: Option<NumV>) -> bool {
    match n {
        Some(n) => num_as_float(n) == Some(n),
        None => true,
    }
}

/// The text of a JSON object as this library writes it.
pub open spec fn plain_arguments(arguments: Seq<char>) -> bool {
    match json_from_str(arguments) {
        Ok(j) => j is Object && json_to_text(wire(j)) == arguments,
        Err(_) => false,
    }
}

/// The members of an object, each value as it becomes on the wire.
pub open spec fn wire_members(o: ObjV) -> ObjV
    decreases o,
{
    Seq::new(
        o.len(),
        |i: int|
            if 0 <= i < o.len() {
                (o[i].0, wire(o[i].1))
            } else {
                (Seq::empty(), JsonV::Null)
            },
    )
}

/// Writes a `serde_json::Value`.
pub fn value_of_json(j: &Json) -> (r: serde_json::Value)
    ensures
        value_json(r) == wire(j@),
    decreases j,
{
    broadcast use group_json;
    match j {
        Json::Null => close_value(Node::Null),
        Json::Bool(b) => close_value(Node::Bool(*b)),
        Json::Number(Num::PosInt(n)) => close_value(Node::Number(number_from_u64(*n))),
        Json::Number(Num::NegInt(n)) => close_value(Node::Number(number_from_i64(*n))),
        Json::Number(Num::Float(t)) => match number_from_float(t.as_str()) {
            Some(n) => close_value(Node::Number(n)),
            None => close_value(Node::Null),
        },
        Json::Str(s) => close_value(Node::Str(s.clone())),
        Json::Array(a) => {
            let mut out: Vec<serde_json::Value> = Vec::new();
            let ghost w = wire(j@)->Array_0;
            proof {
                json_view_array(*a);
            }
            let mut i: usize = 0;
            while i < a.len()
                invariant
                    i <= a@.len(),
                    *j == Json::Array(*a),
                    j@ == JsonV::Array(views(a@)),
                    w == wire(j@)->Array_0,
                    w.len() == a@.len(),
                    values(out@) == w.take(i as int),
                decreases a@.len() - i,
            {
                proof {
                    assert(decreases_to!(*j => j->Array_0));
                    assert(decreases_to!(*a => a@[i as int]));
                }
                let x = value_of_json(&a[i]);
                let ghost before = out@;
                out.push(x);
                proof {
                    assert(w[i as int] == wire(views(a@)[i as int]));
                    assert(values(out@) =~= values(before).push(value_json(x)));
                    assert(w.take(i as int + 1) =~= w.take(i as int).push(w[i as int]));
                }
                i += 1;
            }
            proof {
                assert(w.take(i as int) =~= w);
            }
            close_value(Node::Array(out))
        },
        Json::Object(m) => {
            let mut out: Vec<(String, serde_json::Value)> = Vec::new();
            let ghost w = wire_members(m@);
            proof {
                json_view_object(*m);
            }
            let mut i: usize = 0;
            while i < m.entries.len()
                invariant
                    i <= m.entries@.len(),
                    *j == Json::Object(*m),
                    w.len() == m@.len(),
                    forall|i: int| 0 <= i < w.len() ==> #[trigger] w[i] == (m@[i].0, wire(m@[i].1)),
                    members(out@) == w.take(i as int),
                decreases m.entries@.len() - i,
            {
                proof {
                    assert(decreases_to!(*j => j->Object_0));
                    assert(decreases_to!(m.entries => m.entries@[i as int]));
                    assert(decreases_to!(m.entries@[i as int] => m.entries@[i as int].1));
                }
                let k = m.entries[i].0.clone();
                let x = value_of_json(&m.entries[i].1);
                let ghost before = out@;
                let ghost pair = (k@, value_json(x));
                out.push((k, x));
                proof {
                    assert(m@[i as int] == (m.entries@[i as int].0@, m.entries@[i as int].1@));
                    assert(w[i as int] == pair);
                    assert(members(out@) =~= members(before).push(pair));
                    assert(w.take(i as int + 1) =~= w.take(i as int).push(w[i as int]));
                }
                i += 1;
            }
            proof {
                assert(w.take(i as int) =~= w);
                assert(members(out@).len() == out@.len());
            }
            close_value(Node::Object(out))
        },
    }
}

/// Parses JSON bytes; the error is the parser's message.
pub fn parse_slice(bytes: &[u8]) -> (r: Result<Json, String>)
    ensures
        match r {
            Ok(j) => json_from_slice(bytes@) == Ok::<JsonV, Seq<char>>(j@),
            Err(e) => json_from_slice(bytes@) == Err::<JsonV, Seq<char>>(e@),
        },
        forall|j: JsonV|
            exact_json(j, 127) && bytes@ == #[trigger] json_to_bytes(j) ==> match r {
                Ok(v) => v@ == j,
                Err(_) => false,
            },
{
    match read_slice(bytes) {
        Ok(v) => Ok(json_of_value(v)),
        Err(e) => Err(e),
    }
}

/// Parses JSON text; the error is the parser's message.
pub fn parse_text(text: &str) -> (r: Result<Json, String>)
    ensures
        match r {
            Ok(j) => json_from_str(text@) == Ok::<JsonV, Seq<char>>(j@),
            Err(e) => json_from_str(text@) == Err::<JsonV, Seq<char>>(e@),
        },
        forall|j: JsonV|
            exact_json(j, 127) && text@ == #[trigger] json_to_text(j) ==> match r {
                Ok(v) => v@ == j,
                Err(_) => false,
            },
{
    match read_str(text) {
        Ok(v) => Ok(json_of_value(v)),
        Err(e) => Err(e),
    }
}

/// Serializes a value to JSON bytes.
pub fn to_bytes(j: &Json) -> (r: Vec<u8>)
    ensures
        r@ == json_to_bytes(wire(j@)),
{
    write_vec(&value_of_json(j))
}

/// Serializes a value to compact JSON text.
pub fn to_text(j: &Json) -> (r: String)
    ensures
        r@ == json_to_text(wire(j@)),
{
    write_string(&value_of_json(j))
}

/// The number as a floating-point number: integers gain a fraction. Nothing
/// when it denotes no finite number.
pub open spec fn num_as_float(n: NumV) -> Option<NumV> {
    let text = match n {
        NumV::Int(i) => int_text(i),
        NumV::Float(t) => t,
    };
    match float_text(text) {
        Some(t) => Some(NumV::Float(t)),
        None => None,
    }
}

/// The decimal text of an integer.
pub open spec fn int_text(i: int) -> Seq<char> {
    if i < 0 {
        "-"@ + decimal((-i) as nat)
    } else {
        decimal(i as nat)
    }
}

impl Num {
    /// The decimal text of this number.
    fn text(&self) -> (r: String)
        ensures
            r@ == match self@ {
                NumV::Int(i) => int_text(i),
                NumV::Float(t) => t,
            },
    {
        match self {
            Num::PosInt(n) => dec(*n),
            Num::NegInt(n) => if *n >= 0 {
                dec(*n as u64)
            } else {
                let m: u64 = (-(*n as i128)) as u64;
                cat2("-", dec(m).as_str())
            },
            Num::Float(t) => t.clone(),
        }
    }

    /// The number as a floating-point number.
    pub fn to_float(&self) -> (r: Option<Num>)
        ensures
            opt_view(r) == num_as_float(self@),
    {
        match number_from_float(self.text().as_str()) {
            Some(n) => Some(open_number(n)),
            None => None,
        }
    }
}

} // verus!
