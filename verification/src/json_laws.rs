//! Laws of JSON objects and of merging into them.

use vstd::prelude::*;
use crate::decode::all_strings;
use crate::json::{json_strings, obj_get, obj_index, obj_index_from, obj_index_props, obj_remove, obj_set, obj_wf, JsonV, ObjV};
use crate::merge::{merge_members, merged, obj_part};

verus! {

proof fn index_is(o: ObjV, k: Seq<char>, i: int, p: int)
    requires
        0 <= i <= p < o.len(),
        o[p].0 == k,
        forall|j: int| i <= j < p ==> (#[trigger] o[j]).0 != k,
    ensures
        obj_index_from(o, k, i) == p,
    decreases p - i,
{
    if i < p {
        index_is(o, k, i + 1, p);
    }
}

proof fn index_none(o: ObjV, k: Seq<char>, i: int)
    requires
        0 <= i <= o.len(),
        forall|j: int| i <= j < o.len() ==> (#[trigger] o[j]).0 != k,
    ensures
        obj_index_from(o, k, i) == o.len(),
    decreases o.len() - i,
{
    if i < o.len() {
        index_none(o, k, i + 1);
    }
}

/// A member that was set is read back.
pub proof fn set_member_is_read(o: ObjV, k: Seq<char>, v: JsonV)
    ensures
        obj_get(obj_set(o, k, v), k) == Some(v),
{
    broadcast use obj_index_props;
    reveal(obj_get);
    reveal(obj_set);
    reveal(obj_index);
    let i = obj_index(o, k);
    index_is(obj_set(o, k, v), k, 0, i);
}

/// Setting a member leaves every other member as it was.
pub proof fn set_keeps_other_members(o: ObjV, k: Seq<char>, v: JsonV, other: Seq<char>)
    requires
        other != k,
    ensures
        obj_get(obj_set(o, k, v), other) == obj_get(o, other),
{
    broadcast use obj_index_props;
    reveal(obj_get);
    reveal(obj_set);
    reveal(obj_index);
    let i = obj_index(o, other);
    let t = obj_set(o, k, v);
    if i < o.len() {
        assert forall|j: int| 0 <= j < i implies (#[trigger] t[j]).0 != other by {
            assert(o[j].0 != other);
        }
        index_is(t, other, 0, i);
    } else {
        assert forall|j: int| 0 <= j < t.len() implies (#[trigger] t[j]).0 != other by {
            if j < o.len() {
                assert(o[j].0 != other);
            }
        }
        index_none(t, other, 0);
    }
}

/// Setting a member keeps the names distinct.
pub proof fn set_keeps_names_distinct(o: ObjV, k: Seq<char>, v: JsonV)
    requires
        obj_wf(o),
    ensures
        obj_wf(obj_set(o, k, v)),
{
    broadcast use obj_index_props;
    reveal(obj_set);
}

/// In an object with distinct names a removed member is gone.
pub proof fn removed_member_is_gone(o: ObjV, k: Seq<char>)
    requires
        obj_wf(o),
    ensures
        obj_get(obj_remove(o, k), k) is None,
        obj_wf(obj_remove(o, k)),
{
    broadcast use obj_index_props;
    reveal(obj_get);
    reveal(obj_remove);
    reveal(obj_index);
    let i = obj_index(o, k);
    let t = obj_remove(o, k);
    assert forall|j: int| 0 <= j < t.len() implies (#[trigger] t[j]).0 != k by {
        if i < o.len() {
            let b = if j < i { j } else { j + 1 };
            assert(t[j] == o[b]);
            if b < i {
                assert(o[b].0 != o[i].0);
            } else {
                assert(o[i].0 != o[b].0);
            }
        } else {
            assert(o[j].0 != k);
        }
    }
    index_none(t, k, 0);
    if i < o.len() {
        assert forall|a: int, b: int| 0 <= a < b < t.len() implies #[trigger] t[a].0 != #[trigger] t[b].0 by {
            let x = if a < i { a } else { a + 1 };
            let y = if b < i { b } else { b + 1 };
            assert(t[a] == o[x] && t[b] == o[y]);
        }
    }
}

/// Removing a member leaves every other member as it was.
pub proof fn remove_keeps_other_members(o: ObjV, k: Seq<char>, other: Seq<char>)
    requires
        other != k,
    ensures
        obj_get(obj_remove(o, k), other) == obj_get(o, other),
{
    broadcast use obj_index_props;
    reveal(obj_get);
    reveal(obj_remove);
    reveal(obj_index);
    let r = obj_index(o, k);
    let i = obj_index(o, other);
    let t = obj_remove(o, k);
    if r < o.len() {
        if i < o.len() {
            let p = if i < r { i } else { i - 1 };
            assert forall|j: int| 0 <= j < p implies (#[trigger] t[j]).0 != other by {
                let b = if j < r { j } else { j + 1 };
                assert(t[j] == o[b]);
                assert(o[b].0 != other);
            }
            index_is(t, other, 0, p);
        } else {
            assert forall|j: int| 0 <= j < t.len() implies (#[trigger] t[j]).0 != other by {
                let b = if j < r { j } else { j + 1 };
                assert(t[j] == o[b]);
                assert(o[b].0 != other);
            }
            index_none(t, other, 0);
        }
    }
}

/// A patch leaves every member that it does not name as it was.
pub proof fn merge_keeps_other_members(t: ObjV, p: ObjV, n: nat, other: Seq<char>)
    requires
        n <= p.len(),
        forall|i: int| 0 <= i < n ==> (#[trigger] p[i]).0 != other,
    ensures
        obj_get(merge_members(t, p, n), other) == obj_get(t, other),
    decreases n,
{
    if n > 0 {
        merge_keeps_other_members(t, p, (n - 1) as nat, other);
        let prev = merge_members(t, p, (n - 1) as nat);
        let k = p[n - 1].0;
        match p[n - 1].1 {
            JsonV::Null => {
                remove_keeps_other_members(prev, k, other);
            },
            JsonV::Object(q) => {
                set_keeps_other_members(
                    prev,
                    k,
                    JsonV::Object(merge_members(obj_part(obj_get(prev, k)), q, q.len())),
                    other,
                );
            },
            v => {
                set_keeps_other_members(prev, k, v, other);
            },
        }
    }
}

/// A patch keeps the names of the target distinct.
pub proof fn merge_keeps_names_distinct(t: ObjV, p: ObjV, n: nat)
    requires
        n <= p.len(),
        obj_wf(t),
    ensures
        obj_wf(merge_members(t, p, n)),
    decreases n,
{
    if n > 0 {
        merge_keeps_names_distinct(t, p, (n - 1) as nat);
        let prev = merge_members(t, p, (n - 1) as nat);
        let k = p[n - 1].0;
        match p[n - 1].1 {
            JsonV::Null => {
                removed_member_is_gone(prev, k);
            },
            JsonV::Object(q) => {
                set_keeps_names_distinct(
                    prev,
                    k,
                    JsonV::Object(merge_members(obj_part(obj_get(prev, k)), q, q.len())),
                );
            },
            v => {
                set_keeps_names_distinct(prev, k, v);
            },
        }
    }
}

/// What member `i` of a patch says holds after the merge: `null` deletes, an
/// object merges, anything else is set. Both sides name each member once.
pub proof fn merge_applies_each_member(t: ObjV, p: ObjV, n: nat, i: int)
    requires
        0 <= i < n <= p.len(),
        obj_wf(t),
        obj_wf(p),
    ensures
        match p[i].1 {
            JsonV::Null => obj_get(merge_members(t, p, n), p[i].0) is None,
            JsonV::Object(q) => obj_get(merge_members(t, p, n), p[i].0) == Some(
                JsonV::Object(merged(obj_part(obj_get(t, p[i].0)), q)),
            ),
            v => obj_get(merge_members(t, p, n), p[i].0) == Some(v),
        },
    decreases n,
{
    let prev = merge_members(t, p, (n - 1) as nat);
    let k = p[n - 1].0;
    merge_keeps_names_distinct(t, p, (n - 1) as nat);
    if i == n - 1 {
        assert forall|j: int| 0 <= j < n - 1 implies (#[trigger] p[j]).0 != k by {
            assert(p[j].0 != p[i].0);
        }
        merge_keeps_other_members(t, p, (n - 1) as nat, k);
        match p[i].1 {
            JsonV::Null => {
                removed_member_is_gone(prev, k);
            },
            JsonV::Object(q) => {
                set_member_is_read(
                    prev,
                    k,
                    JsonV::Object(merge_members(obj_part(obj_get(prev, k)), q, q.len())),
                );
            },
            v => {
                set_member_is_read(prev, k, v);
            },
        }
    } else {
        merge_applies_each_member(t, p, (n - 1) as nat, i);
        assert(p[i].0 != p[n - 1].0);
        match p[n - 1].1 {
            JsonV::Null => {
                remove_keeps_other_members(prev, k, p[i].0);
            },
            JsonV::Object(q) => {
                set_keeps_other_members(
                    prev,
                    k,
                    JsonV::Object(merge_members(obj_part(obj_get(prev, k)), q, q.len())),
                    p[i].0,
                );
            },
            v => {
                set_keeps_other_members(prev, k, v, p[i].0);
            },
        }
    }
}

/// Strings are read back from the array that they become.
pub proof fn strings_round_trip(v: Seq<Seq<char>>, n: nat)
    requires
        n <= v.len(),
    ensures
        all_strings(json_strings(v)->Array_0, n) == Some(v.take(n as int)),
    decreases n,
{
    if n == 0 {
        assert(v.take(0) =~= Seq::<Seq<char>>::empty());
    } else {
        strings_round_trip(v, (n - 1) as nat);
        assert(v.take(n - 1).push(v[n - 1]) =~= v.take(n as int));
    }
}

} // verus!
