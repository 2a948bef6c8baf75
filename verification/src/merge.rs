//! JSON Merge Patch (RFC 7396) over [`Json`] objects, with a log of the
//! locations that a patch addressed.

use vstd::prelude::*;
use vstd::string::*;
use crate::json::{group_json, json_view_object, obj_get, obj_index_props, obj_remove, obj_set, Json, JsonMap, JsonV, ObjV};
use crate::model::{group_views, views};
use crate::text::{cat3, str_eq};

verus! {

broadcast use group_views;

/// One character of a JSON Pointer token, escaped: `~` and `/` are special.
pub open spec fn escape_char(c: char) -> Seq<char> {
    if c == '~' {
        "~0"@
    } else if c == '/' {
        "~1"@
    } else {
        seq![c]
    }
}

/// The first `n` characters of a JSON Pointer token, escaped.
pub open spec fn escape_token(s: Seq<char>, n: nat) -> Seq<char>
    decreases n,
{
    if n == 0 {
        Seq::empty()
    } else {
        escape_token(s, (n - 1) as nat) + escape_char(s[n - 1])
    }
}

/// The pointer to member `k` of the object at `ptr`.
pub open spec fn member_pointer(ptr: Seq<char>, k: Seq<char>) -> Seq<char> {
    ptr + "/"@ + escape_token(k, k.len())
}

/// Escapes a JSON Pointer token (RFC 6901).
pub fn escape_pointer_token(token: &str) -> (r: String)
    ensures
        r@ == escape_token(token@, token@.len()),
{
    let mut out = String::new();
    let mut i: usize = 0;
    let n = token.unicode_len();
    while i < n
        invariant
            n == token@.len(),
            i <= n,
            out@ == escape_token(token@, i as nat),
        decreases n - i,
    {
        let c = token.get_char(i);
        if c == '~' {
            out.append("~0");
        } else if c == '/' {
            out.append("~1");
        } else {
            out.push(c);
            proof {
                assert(out@ =~= escape_token(token@, i as nat) + seq![c]);
            }
        }
        i += 1;
    }
    out
}

/// The members of an object; none for any other value.
pub open spec fn obj_part(j: Option<JsonV>) -> ObjV {
    match j {
        Some(JsonV::Object(o)) => o,
        _ => Seq::empty(),
    }
}

/// `t` after the first `n` members of patch `p` were applied: `null` deletes,
/// an object merges recursively, anything else replaces.
pub open spec fn merge_members(t: ObjV, p: ObjV, n: nat) -> ObjV
    decreases p, n,
{
    if n == 0 || n > p.len() {
        t
    } else {
        let prev = merge_members(t, p, (n - 1) as nat);
        let k = p[n - 1].0;
        match p[n - 1].1 {
            JsonV::Null => obj_remove(prev, k),
            JsonV::Object(q) => obj_set(
                prev,
                k,
                JsonV::Object(merge_members(obj_part(obj_get(prev, k)), q, q.len())),
            ),
            v => obj_set(prev, k, v),
        }
    }
}

/// `t` after patch `p` was applied.
pub open spec fn merged(t: ObjV, p: ObjV) -> ObjV {
    merge_members(t, p, p.len())
}

/// The locations addressed by the first `n` members of patch `p`, applied at
/// `ptr`: one per member that sets or deletes, in order.
pub open spec fn addressed_members(p: ObjV, ptr: Seq<char>, n: nat) -> Seq<Seq<char>>
    decreases p, n,
{
    if n == 0 || n > p.len() {
        Seq::empty()
    } else {
        let prev = addressed_members(p, ptr, (n - 1) as nat);
        let at = member_pointer(ptr, p[n - 1].0);
        match p[n - 1].1 {
            JsonV::Object(q) => if q.len() == 0 {
                prev.push(at)
            } else {
                prev + addressed_members(q, at, q.len())
            },
            _ => prev.push(at),
        }
    }
}

/// The locations that patch `p`, applied at `ptr`, addresses.
pub open spec fn addressed(p: ObjV, ptr: Seq<char>) -> Seq<Seq<char>> {
    addressed_members(p, ptr, p.len())
}

/// Locations addressed by `extra` merges, in the order of the merges.
#[derive(Debug, PartialEq, Eq)]
pub struct MergeLog {
    pub pointers: Vec<String>,
}

impl View for MergeLog {
    type V = Seq<Seq<char>>;

    open spec fn view(&self) -> Seq<Seq<char>> {
        views(self.pointers@)
    }
}

/// `p` addresses `location`: it is that location or one that contains it.
pub open spec fn covers(p: Seq<char>, location: Seq<char>) -> bool {
    p == location || (p.len() < location.len() && location.take(p.len() as int) == p
        && location[p.len() as int] == '/')
}

/// Some logged merge addressed `location`.
pub open spec fn log_overrides(log: Seq<Seq<char>>, location: Seq<char>) -> bool {
    exists|i: int| 0 <= i < log.len() && #[trigger] covers(log[i], location)
}

fn pointer_covers(p: &str, location: &str) -> (r: bool)
    ensures
        r == covers(p@, location@),
{
    if str_eq(p, location) {
        return true;
    }
    let n = p.unicode_len();
    let m = location.unicode_len();
    if n >= m {
        return false;
    }
    if location.get_char(n) != '/' {
        return false;
    }
    let head = location.substring_char(0, n);
    str_eq(head, p)
}

impl MergeLog {
    /// An empty log.
    pub fn new() -> (r: MergeLog)
        ensures
            r@ == Seq::<Seq<char>>::empty(),
    {
        MergeLog { pointers: Vec::new() }
    }

    /// `true` when a logged merge addressed `location`.
    pub fn overrides(&self, location: &str) -> (r: bool)
        ensures
            r == log_overrides(self@, location@),
    {
        let mut i: usize = 0;
        while i < self.pointers.len()
            invariant
                i <= self.pointers@.len(),
                forall|j: int| 0 <= j < i ==> !#[trigger] covers(self@[j], location@),
            decreases self.pointers@.len() - i,
        {
            if pointer_covers(self.pointers[i].as_str(), location) {
                proof {
                    assert(covers(self@[i as int], location@));
                }
                return true;
            }
            i += 1;
        }
        false
    }
}

/// Applies `patch` to the members of an object, logging every location that
/// it addresses.
pub fn merge_into_map(target: &mut JsonMap, patch: &JsonMap, ptr: &str, log: &mut MergeLog)
    ensures
        final(target)@ == merged(old(target)@, patch@),
        final(log)@ == old(log)@ + addressed(patch@, ptr@),
    decreases patch,
{
    broadcast use group_json;
    broadcast use obj_index_props;
    let mut i: usize = 0;
    proof {
        assert(log@ =~= old(log)@ + addressed_members(patch@, ptr@, 0));
    }
    while i < patch.entries.len()
        invariant
            i <= patch.entries@.len(),
            target@ == merge_members(old(target)@, patch@, i as nat),
            log@ == old(log)@ + addressed_members(patch@, ptr@, i as nat),
        decreases patch.entries@.len() - i,
    {
        let k = &patch.entries[i].0;
        let v = &patch.entries[i].1;
        let at = cat3(ptr, "/", escape_pointer_token(k.as_str()).as_str());
        let ghost log0 = log@;
        let ghost prev = addressed_members(patch@, ptr@, i as nat);
        proof {
            assert(patch@[i as int] == (k@, v@));
            assert(at@ == member_pointer(ptr@, k@));
            assert(decreases_to!(*patch => patch.entries));
            assert(decreases_to!(patch.entries => patch.entries@[i as int]));
            assert(decreases_to!(patch.entries@[i as int] => patch.entries@[i as int].1));
        }
        match v {
            Json::Null => {
                let _ = target.remove(k.as_str());
                log.pointers.push(at);
                proof {
                    assert(log@ =~= old(log)@ + prev.push(at@));
                }
            },
            Json::Object(q) => {
                proof {
                    json_view_object(*q);
                    assert(decreases_to!(*v => v->Object_0));
                }
                let mut child = match target.get(k.as_str()) {
                    Some(Json::Object(m)) => {
                        proof { json_view_object(*m); }
                        m.copy()
                    },
                    _ => JsonMap::new(),
                };
                if q.is_empty() {
                    log.pointers.push(at);
                    proof {
                        assert(log@ =~= old(log)@ + prev.push(at@));
                        assert(child@ == merge_members(child@, q@, q@.len()));
                    }
                } else {
                    merge_into_map(&mut child, q, at.as_str(), log);
                    proof {
                        assert(log@ =~= old(log)@ + (prev + addressed(q@, at@)));
                    }
                }
                target.set(k.as_str(), Json::object(child));
            },
            _ => {
                target.set(k.as_str(), v.copy());
                log.pointers.push(at);
                proof {
                    assert(log@ =~= old(log)@ + prev.push(at@));
                }
            },
        }
        i += 1;
    }
}

/// Applies `patch` to `target` at `ptr`, logging every location that it
/// addresses. A target that is no object becomes one.
pub fn merge_patch(target: &mut Json, patch: &JsonMap, ptr: &str, log: &mut MergeLog)
    ensures
        final(target)@ == JsonV::Object(merged(obj_part(Some(old(target)@)), patch@)),
        final(log)@ == old(log)@ + addressed(patch@, ptr@),
{
    broadcast use group_json;
    let mut m = match target {
        Json::Object(m) => m.copy(),
        _ => JsonMap::new(),
    };
    merge_into_map(&mut m, patch, ptr, log);
    *target = Json::object(m);
}

} // verus!
