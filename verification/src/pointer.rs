//! JSON pointers: reading and writing the value at a location.

use vstd::prelude::*;
use crate::headers::{parse_unsigned, unsigned_value};
use crate::json::{group_json, obj_get, obj_index_props, obj_set, Json, JsonV};
use crate::json_laws::set_member_is_read;
use crate::model::{group_views, opt_view, views};
use crate::scan::{chars_of, replace, replaced, split, split_chars, string_of};

verus! {

broadcast use group_views;

/// A token of a pointer without its escapes.
pub open spec fn unescaped(t: Seq<char>) -> Seq<char> {
    replaced(replaced(t, seq!['~', '1'], "/"@), seq!['~', '0'], "~"@)
}

/// The tokens of a pointer: none for the whole document, nothing for a text
/// that is no pointer.
pub open spec fn pointer_tokens(ptr: Seq<char>) -> Option<Seq<Seq<char>>> {
    if ptr.len() == 0 {
        Some(Seq::empty())
    } else if ptr[0] != '/' {
        None
    } else {
        Some(split(ptr.skip(1), '/').map_values(|t: Seq<char>| unescaped(t)))
    }
}

/// The array index that a token denotes: digits without leading zeros.
pub open spec fn index_token(t: Seq<char>) -> Option<nat> {
    if t.len() > 0 && (t[0] == '+' || (t[0] == '0' && t.len() != 1)) {
        None
    } else {
        unsigned_value(t)
    }
}

/// The value at the path `toks` in `j`.
pub open spec fn value_at(j: JsonV, toks: Seq<Seq<char>>) -> Option<JsonV>
    decreases toks.len(),
{
    if toks.len() == 0 {
        Some(j)
    } else {
        match j {
            JsonV::Object(o) => match obj_get(o, toks[0]) {
                Some(v) => value_at(v, toks.skip(1)),
                None => None,
            },
            JsonV::Array(a) => match index_token(toks[0]) {
                Some(i) => if i < a.len() { value_at(a[i as int], toks.skip(1)) } else { None },
                None => None,
            },
            _ => None,
        }
    }
}

/// `j` with the value at the path `toks` replaced, where there is one.
pub open spec fn with_value_at(j: JsonV, toks: Seq<Seq<char>>, v: JsonV) -> JsonV
    decreases toks.len(),
{
    if toks.len() == 0 {
        v
    } else {
        match j {
            JsonV::Object(o) => match obj_get(o, toks[0]) {
                Some(child) => JsonV::Object(obj_set(o, toks[0], with_value_at(child, toks.skip(1), v))),
                None => j,
            },
            JsonV::Array(a) => match index_token(toks[0]) {
                Some(i) => if i < a.len() {
                    JsonV::Array(a.update(i as int, with_value_at(a[i as int], toks.skip(1), v)))
                } else {
                    j
                },
                None => j,
            },
            _ => j,
        }
    }
}

/// The value that a pointer addresses.
pub open spec fn pointed(j: JsonV, ptr: Seq<char>) -> Option<JsonV> {
    match pointer_tokens(ptr) {
        Some(toks) => value_at(j, toks),
        None => None,
    }
}

/// `j` with the value that a pointer addresses replaced, where there is one.
pub open spec fn with_pointed(j: JsonV, ptr: Seq<char>, v: JsonV) -> JsonV {
    match pointer_tokens(ptr) {
        Some(toks) => with_value_at(j, toks, v),
        None => j,
    }
}

fn unescape(t: &str) -> (r: String)
    ensures
        r@ == unescaped(t@),
{
    let mut one: Vec<char> = Vec::new();
    one.push('~');
    one.push('1');
    let mut zero: Vec<char> = Vec::new();
    zero.push('~');
    zero.push('0');
    proof {
        assert(one@ =~= seq!['~', '1']);
        assert(zero@ =~= seq!['~', '0']);
    }
    let a = replace(&chars_of(t), &one, "/");
    replace(&chars_of(a.as_str()), &zero, "~")
}

/// Splits a pointer into its tokens.
pub fn parse_pointer(ptr: &str) -> (r: Option<Vec<String>>)
    ensures
        match r {
            Some(v) => pointer_tokens(ptr@) == Some(views(v@)),
            None => pointer_tokens(ptr@) is None,
        },
{
    let v = chars_of(ptr);
    let mut out: Vec<String> = Vec::new();
    if v.len() == 0 {
        proof {
            assert(views(out@) =~= Seq::<Seq<char>>::empty());
        }
        return Some(out);
    }
    if v[0] != '/' {
        return None;
    }
    let rest = string_of(&v, 1, v.len());
    proof {
        assert(rest@ =~= ptr@.skip(1));
    }
    let parts = split_chars(rest.as_str(), '/');
    let mut i: usize = 0;
    while i < parts.len()
        invariant
            i <= parts@.len(),
            out@.len() == i,
            forall|k: int| 0 <= k < i ==> (#[trigger] out@[k])@ == unescaped(parts@[k]@),
        decreases parts@.len() - i,
    {
        out.push(unescape(parts[i].as_str()));
        i += 1;
    }
    proof {
        assert(views(out@) =~= split(ptr@.skip(1), '/').map_values(|t: Seq<char>| unescaped(t)));
    }
    Some(out)
}

fn parse_index(t: &str) -> (r: Option<u64>)
    ensures
        match r {
            Some(n) => index_token(t@) == Some(n as nat),
            None => index_token(t@) is None,
        },
{
    let v = chars_of(t);
    if v.len() > 0 && (v[0] == '+' || (v[0] == '0' && v.len() != 1)) {
        return None;
    }
    parse_unsigned(&v)
}

/// Finds the value at a path, from token `from` on.
pub fn find_value<'a>(j: &'a Json, toks: &Vec<String>, from: usize) -> (r: Option<&'a Json>)
    requires
        from <= toks@.len(),
    ensures
        opt_view(r) == value_at(j@, views(toks@).skip(from as int)),
    decreases toks@.len() - from,
{
    broadcast use group_json;
    let ghost ts = views(toks@).skip(from as int);
    if from == toks.len() {
        return Some(j);
    }
    proof {
        assert(ts[0] == toks@[from as int]@);
        assert(ts.skip(1) =~= views(toks@).skip(from + 1));
    }
    match j {
        Json::Object(o) => match o.get(toks[from].as_str()) {
            Some(v) => find_value(v, toks, from + 1),
            None => None,
        },
        Json::Array(a) => match parse_index(toks[from].as_str()) {
            Some(i) => {
                if i < a.len() as u64 {
                    find_value(&a[i as usize], toks, from + 1)
                } else {
                    None
                }
            },
            None => None,
        },
        _ => None,
    }
}

/// Replaces the value at a path, from token `from` on.
pub fn put_value(j: Json, toks: &Vec<String>, from: usize, v: Json) -> (r: Json)
    requires
        from <= toks@.len(),
    ensures
        r@ == with_value_at(j@, views(toks@).skip(from as int), v@),
    decreases toks@.len() - from,
{
    broadcast use group_json;
    broadcast use obj_index_props;
    let ghost ts = views(toks@).skip(from as int);
    if from == toks.len() {
        return v;
    }
    proof {
        assert(ts[0] == toks@[from as int]@);
        assert(ts.skip(1) =~= views(toks@).skip(from + 1));
        reveal(obj_get);
        reveal(obj_set);
    }
    match j {
        Json::Object(m) => {
            let mut m = m;
            let ghost o = m@;
            let i = m.index_of(toks[from].as_str());
            if i < m.entries.len() {
                let mut e = (String::new(), Json::Null);
                m.entries.set_and_swap(i, &mut e);
                let (k, child) = e;
                proof {
                    assert(o[i as int] == (k@, child@));
                }
                let mut e = (k, put_value(child, toks, from + 1, v));
                m.entries.set_and_swap(i, &mut e);
                proof {
                    assert(m@ =~= obj_set(o, ts[0], with_value_at(o[i as int].1, ts.skip(1), v@)));
                }
                Json::Object(m)
            } else {
                Json::Object(m)
            }
        },
        Json::Array(a) => {
            let mut a = a;
            let ghost av = views(a@);
            match parse_index(toks[from].as_str()) {
                Some(i) => {
                    if i < a.len() as u64 {
                        let at = i as usize;
                        let mut child = Json::Null;
                        a.set_and_swap(at, &mut child);
                        proof {
                            assert(av[at as int] == child@);
                        }
                        let mut child = put_value(child, toks, from + 1, v);
                        a.set_and_swap(at, &mut child);
                        proof {
                            assert(views(a@) =~= av.update(
                                at as int,
                                with_value_at(av[at as int], ts.skip(1), v@),
                            ));
                        }
                    }
                    Json::Array(a)
                },
                None => Json::Array(a),
            }
        },
        other => other,
    }
}

/// Reading a location after writing it gives what was written.
pub proof fn written_value_is_read(j: JsonV, toks: Seq<Seq<char>>, v: JsonV)
    requires
        value_at(j, toks) is Some,
    ensures
        value_at(with_value_at(j, toks, v), toks) == Some(v),
    decreases toks.len(),
{
    broadcast use obj_index_props;
    if toks.len() > 0 {
        match j {
            JsonV::Object(o) => {
                let child = obj_get(o, toks[0])->0;
                let w = with_value_at(child, toks.skip(1), v);
                written_value_is_read(child, toks.skip(1), v);
                set_member_is_read(o, toks[0], w);
            },
            JsonV::Array(a) => {
                let i = index_token(toks[0])->0;
                written_value_is_read(a[i as int], toks.skip(1), v);
            },
            _ => {},
        }
    }
}

} // verus!
