//! Laws: what is left of provider data when a merge puts it behind members
//! that it does not name. Its `null`s are gone, at every depth, and what is
//! left stays as it is from then on.

use vstd::prelude::*;
use crate::decode::unknown;
use crate::ir::{extra_from_unknown, extra_get, extra_has, extra_has_any, extra_merged, extra_ns, non_null};
use crate::json::{obj_get, obj_index, obj_index_props, obj_remove, obj_set, obj_wf, JsonV, ObjV};
use crate::json_laws::merge_keeps_other_members;
use crate::merge::{merge_members, merged, obj_part};
use crate::namespaces::{absent, absent_is_not_read, avoids, clean, first_named_is_read, members_behind_are_read, new_members_are_appended, nothing_is_dropped, null_free, removing_nothing, unmodeled_members_are_kept, unread_is_absent, within};

verus! {

/// What a merge leaves of data that it puts behind other members.
pub open spec fn swept(p: ObjV) -> ObjV {
    merged(Seq::empty(), p)
}

/// A change behind members that a name is not among is a change of what
/// stands behind them.
pub proof fn changes_behind(t: ObjV, u: ObjV, k: Seq<char>, v: JsonV)
    requires
        absent(t, k),
    ensures
        obj_set(t + u, k, v) == t + obj_set(u, k, v),
        obj_remove(t + u, k) == t + obj_remove(u, k),
{
    broadcast use obj_index_props;
    reveal(obj_set);
    reveal(obj_remove);
    let i = obj_index(u, k);
    let j = obj_index(t + u, k);
    assert(j == t.len() + i) by {
        if j < t.len() {
            assert((t + u)[j].0 == t[j].0);
        } else if j < t.len() + i {
            assert((t + u)[j].0 == u[j - t.len()].0);
        } else if j > t.len() + i {
            assert((t + u)[t.len() + i].0 == u[i].0);
        }
    }
    if i < u.len() {
        assert((t + u).update(j, (k, v)) =~= t + u.update(i, (k, v)));
        assert((t + u).remove(j) =~= t + u.remove(i));
    } else {
        assert((t + u).push((k, v)) =~= t + u.push((k, v)));
    }
}

/// Data for names that an object does not have goes behind it, swept.
pub proof fn apart_data_is_appended(t: ObjV, p: ObjV, n: nat)
    requires
        n <= p.len(),
        forall|i: int| 0 <= i < n ==> absent(t, (#[trigger] p[i]).0),
    ensures
        merge_members(t, p, n) == t + merge_members(Seq::empty(), p, n),
    decreases n,
{
    let none = Seq::<(Seq<char>, JsonV)>::empty();
    if n == 0 {
        assert(t + none =~= t);
    } else {
        apart_data_is_appended(t, p, (n - 1) as nat);
        let u = merge_members(none, p, (n - 1) as nat);
        let k = p[n - 1].0;
        members_behind_are_read(t, u, k);
        match p[n - 1].1 {
            JsonV::Null => {
                changes_behind(t, u, k, JsonV::Null);
            },
            JsonV::Object(q) => {
                changes_behind(t, u, k, JsonV::Object(merge_members(obj_part(obj_get(u, k)), q, q.len())));
            },
            v => {
                changes_behind(t, u, k, v);
            },
        }
    }
}

/// A member that a clean object may hold.
pub open spec fn clean_value(v: JsonV) -> bool {
    match v {
        JsonV::Null => false,
        JsonV::Object(q) => clean(q),
        _ => true,
    }
}

/// All members are ones that a clean object may hold.
pub open spec fn clean_values(o: ObjV) -> bool {
    forall|i: int| 0 <= i < o.len() ==> clean_value((#[trigger] o[i]).1)
}

proof fn clean_values_are_null_free(o: ObjV, n: nat)
    requires
        n <= o.len(),
        clean_values(o),
    ensures
        null_free(o, n),
    decreases n,
{
    if n > 0 {
        clean_values_are_null_free(o, (n - 1) as nat);
        assert(clean_value(o[n - 1].1));
    }
}

proof fn null_free_values_are_clean(o: ObjV, n: nat, i: int)
    requires
        0 <= i < n <= o.len(),
        null_free(o, n),
    ensures
        clean_value(o[i].1),
    decreases n,
{
    if i < n - 1 {
        null_free_values_are_clean(o, (n - 1) as nat, i);
    }
}

/// An object is clean when its members are, and each has a name of its own.
pub proof fn clean_member_by_member(o: ObjV)
    ensures
        clean(o) <==> obj_wf(o) && clean_values(o),
{
    if clean_values(o) {
        clean_values_are_null_free(o, o.len());
    }
    if clean(o) {
        assert forall|i: int| 0 <= i < o.len() implies clean_value((#[trigger] o[i]).1) by {
            null_free_values_are_clean(o, o.len(), i);
        }
    }
}

/// The names of `o` are among the first `n` of `p`.
pub open spec fn named_in(o: ObjV, p: ObjV, n: nat) -> bool {
    forall|i: int| 0 <= i < o.len() ==> exists|j: int| 0 <= j < n && (#[trigger] o[i]).0 == (#[trigger] p[j]).0
}

proof fn set_stays_clean(o: ObjV, k: Seq<char>, v: JsonV)
    requires
        clean(o),
        clean_value(v),
    ensures
        clean(obj_set(o, k, v)),
        obj_set(o, k, v).len() > 0,
        forall|i: int|
            0 <= i < obj_set(o, k, v).len() ==> (#[trigger] obj_set(o, k, v)[i]).0 == k || (i < o.len()
                && obj_set(o, k, v)[i].0 == o[i].0),
{
    broadcast use obj_index_props;
    reveal(obj_set);
    clean_member_by_member(o);
    let r = obj_set(o, k, v);
    let x = obj_index(o, k);
    assert forall|i: int, j: int| 0 <= i < j < r.len() implies #[trigger] r[i].0 != #[trigger] r[j].0 by {
        if x < o.len() {
            assert(r[i].0 == o[i].0 && r[j].0 == o[j].0);
        } else if j < o.len() {
            assert(r[i].0 == o[i].0 && r[j].0 == o[j].0);
        } else {
            assert(r[i] == o[i]);
        }
    }
    assert forall|i: int| 0 <= i < r.len() implies clean_value((#[trigger] r[i]).1) by {
        if i != x {
            assert(r[i] == o[i]);
        }
    }
    clean_member_by_member(r);
}

proof fn remove_stays_clean(o: ObjV, k: Seq<char>)
    requires
        clean(o),
    ensures
        clean(obj_remove(o, k)),
        forall|i: int|
            0 <= i < obj_remove(o, k).len() ==> exists|j: int|
                0 <= j < o.len() && (#[trigger] obj_remove(o, k)[i]).0 == (#[trigger] o[j]).0,
{
    broadcast use obj_index_props;
    reveal(obj_remove);
    clean_member_by_member(o);
    let r = obj_remove(o, k);
    let x = obj_index(o, k);
    if x < o.len() {
        assert forall|i: int| 0 <= i < r.len() implies #[trigger] r[i] == o[if i < x { i } else { i + 1 }] by {}
        assert forall|i: int, j: int| 0 <= i < j < r.len() implies #[trigger] r[i].0 != #[trigger] r[j].0 by {
            let a = if i < x { i } else { i + 1 };
            let b = if j < x { j } else { j + 1 };
            assert(o[a].0 != o[b].0);
        }
        assert forall|i: int| 0 <= i < r.len() implies clean_value((#[trigger] r[i]).1) by {
            let a = if i < x { i } else { i + 1 };
            assert(clean_value(o[a].1));
        }
        assert forall|i: int| 0 <= i < r.len() implies exists|j: int|
            0 <= j < o.len() && (#[trigger] r[i]).0 == (#[trigger] o[j]).0 by {
            let a = if i < x { i } else { i + 1 };
            assert(r[i].0 == o[a].0);
        }
        clean_member_by_member(r);
    } else {
        assert(r == o);
    }
}

/// Merging into a clean object leaves a clean object.
pub proof fn merge_stays_clean(t: ObjV, p: ObjV, n: nat)
    requires
        n <= p.len(),
        clean(t),
    ensures
        clean(merge_members(t, p, n)),
    decreases p, n,
{
    if n > 0 {
        merge_stays_clean(t, p, (n - 1) as nat);
        let prev = merge_members(t, p, (n - 1) as nat);
        let k = p[n - 1].0;
        match p[n - 1].1 {
            JsonV::Null => {
                remove_stays_clean(prev, k);
            },
            JsonV::Object(q) => {
                let inner = obj_part(obj_get(prev, k));
                assert(clean(inner)) by {
                    broadcast use obj_index_props;
                    reveal(obj_get);
                    clean_member_by_member(prev);
                    if obj_get(prev, k) is Some {
                        assert(clean_value(prev[obj_index(prev, k)].1));
                    }
                }
                merge_stays_clean(inner, q, q.len());
                set_stays_clean(prev, k, JsonV::Object(merge_members(inner, q, q.len())));
            },
            v => {
                set_stays_clean(prev, k, v);
            },
        }
    }
}

/// Swept data is clean.
pub proof fn swept_data_is_clean(p: ObjV)
    ensures
        clean(swept(p)),
{
    merge_stays_clean(Seq::empty(), p, p.len());
}

proof fn swept_names(p: ObjV, n: nat)
    requires
        n <= p.len(),
    ensures
        named_in(merge_members(Seq::empty(), p, n), p, n),
    decreases n,
{
    let none = Seq::<(Seq<char>, JsonV)>::empty();
    if n > 0 {
        let m = (n - 1) as nat;
        swept_names(p, m);
        merge_stays_clean(none, p, m);
        let prev = merge_members(none, p, m);
        let r = merge_members(none, p, n);
        let k = p[n - 1].0;
        if p[n - 1].1 is Null {
            remove_stays_clean(prev, k);
            assert forall|i: int| 0 <= i < r.len() implies exists|j: int|
                0 <= j < n && (#[trigger] r[i]).0 == (#[trigger] p[j]).0 by {
                let a = choose|a: int| 0 <= a < prev.len() && r[i].0 == (#[trigger] prev[a]).0;
                let j = choose|j: int| 0 <= j < m && prev[a].0 == (#[trigger] p[j]).0;
                assert(r[i].0 == p[j].0);
            }
        } else {
            let v = match p[n - 1].1 {
                JsonV::Object(q) => JsonV::Object(merge_members(obj_part(obj_get(prev, k)), q, q.len())),
                v => v,
            };
            assert(r == obj_set(prev, k, v));
            assert forall|i: int| 0 <= i < r.len() implies exists|j: int|
                0 <= j < n && (#[trigger] r[i]).0 == (#[trigger] p[j]).0 by {
                broadcast use obj_index_props;
                reveal(obj_set);
                if r[i].0 != k {
                    assert(i < prev.len() && r[i].0 == prev[i].0);
                    let j = choose|j: int| 0 <= j < m && prev[i].0 == (#[trigger] p[j]).0;
                    assert(r[i].0 == p[j].0);
                } else {
                    assert(r[i].0 == p[n - 1].0);
                }
            }
        }
    }
}

/// Swept data has no other names.
pub proof fn swept_data_avoids(p: ObjV, known: Seq<Seq<char>>)
    requires
        avoids(p, known),
    ensures
        avoids(swept(p), known),
{
    swept_names(p, p.len());
    let r = swept(p);
    assert forall|i: int| 0 <= i < r.len() implies !known.contains((#[trigger] r[i]).0) by {
        let j = choose|j: int| 0 <= j < p.len() && r[i].0 == (#[trigger] p[j]).0;
        assert(!known.contains(p[j].0));
    }
}

/// A name that data does not have is not among the swept data.
pub proof fn swept_data_lacks(p: ObjV, k: Seq<char>)
    requires
        absent(p, k),
    ensures
        absent(swept(p), k),
{
    swept_names(p, p.len());
    let r = swept(p);
    assert forall|i: int| 0 <= i < r.len() implies (#[trigger] r[i]).0 != k by {
        let j = choose|j: int| 0 <= j < p.len() && r[i].0 == (#[trigger] p[j]).0;
    }
}

/// Clean data has nothing to sweep.
pub proof fn clean_data_is_swept(p: ObjV)
    requires
        clean(p),
    ensures
        swept(p) == p,
{
    let none = Seq::<(Seq<char>, JsonV)>::empty();
    new_members_are_appended(none, p, p.len());
    assert(none + p.take(p.len() as int) =~= p);
}

/// Sweeping twice is sweeping once.
pub proof fn swept_data_stays(p: ObjV)
    ensures
        swept(swept(p)) == swept(p),
{
    swept_data_is_clean(p);
    clean_data_is_swept(swept(p));
}

proof fn non_null_members(o: ObjV, n: nat)
    requires
        n <= o.len(),
    ensures
        forall|i: int| 0 <= i < non_null(o, n).len() ==> !((#[trigger] non_null(o, n)[i]).1 is Null),
        named_in(non_null(o, n), o, n),
    decreases n,
{
    if n > 0 {
        let m = (n - 1) as nat;
        non_null_members(o, m);
        let prev = non_null(o, m);
        let r = non_null(o, n);
        assert forall|i: int| 0 <= i < r.len() implies exists|j: int|
            0 <= j < n && (#[trigger] r[i]).0 == (#[trigger] o[j]).0 by {
            if i < prev.len() {
                assert(r[i] == prev[i]);
                let j = choose|j: int| 0 <= j < m && prev[i].0 == (#[trigger] o[j]).0;
                assert(r[i].0 == o[j].0);
            } else {
                assert(r[i].0 == o[n - 1].0);
            }
        }
        assert forall|i: int| 0 <= i < r.len() implies !((#[trigger] r[i]).1 is Null) by {
            if i < prev.len() {
                assert(r[i] == prev[i]);
            }
        }
    }
}

/// Dropping `null` members adds no name.
pub proof fn non_null_avoids(o: ObjV, known: Seq<Seq<char>>)
    requires
        avoids(o, known),
    ensures
        avoids(non_null(o, o.len()), known),
{
    non_null_members(o, o.len());
    let r = non_null(o, o.len());
    assert forall|i: int| 0 <= i < r.len() implies !known.contains((#[trigger] r[i]).0) by {
        let j = choose|j: int| 0 <= j < o.len() && r[i].0 == (#[trigger] o[j]).0;
        assert(!known.contains(o[j].0));
    }
}

proof fn sweeping_keeps_something(p: ObjV, n: nat)
    requires
        0 < n <= p.len(),
        forall|i: int| 0 <= i < p.len() ==> !((#[trigger] p[i]).1 is Null),
    ensures
        merge_members(Seq::empty(), p, n).len() > 0,
{
    broadcast use obj_index_props;
    reveal(obj_set);
    assert(!(p[n - 1].1 is Null));
}

/// Sweeping drops no whole member that is not `null`.
pub proof fn swept_data_is_there(o: ObjV)
    ensures
        (swept(non_null(o, o.len())).len() > 0) == (non_null(o, o.len()).len() > 0),
{
    let p = non_null(o, o.len());
    non_null_members(o, o.len());
    if p.len() > 0 {
        sweeping_keeps_something(p, p.len());
    }
}

/// What sweeping makes of a member.
pub open spec fn swept_member(v: Option<JsonV>) -> Option<JsonV> {
    match v {
        Some(JsonV::Null) => None,
        Some(JsonV::Object(q)) => Some(JsonV::Object(swept(q))),
        v => v,
    }
}

proof fn swept_upto_is_read(p: ObjV, k: Seq<char>, n: nat)
    requires
        n <= p.len(),
        obj_wf(p),
    ensures
        obj_get(merge_members(Seq::empty(), p, n), k) == swept_member(obj_get(p.take(n as int), k)),
    decreases n,
{
    let none = Seq::<(Seq<char>, JsonV)>::empty();
    broadcast use obj_index_props;
    if n == 0 {
        absent_is_not_read(none, k, JsonV::Null);
        assert(p.take(0) =~= none);
    } else {
        let m = (n - 1) as nat;
        swept_upto_is_read(p, k, m);
        let prev = merge_members(none, p, m);
        let name = p[n - 1].0;
        let a = p.take(m as int);
        let b = p.take(n as int);
        assert(b =~= a.push(p[n - 1]));
        swept_upto_is_read(p, name, m);
        assert(absent(a, name)) by {
            assert forall|i: int| 0 <= i < a.len() implies (#[trigger] a[i]).0 != name by {
                assert(p[i].0 != p[n - 1].0);
            }
        }
        absent_is_not_read(a, name, JsonV::Null);
        assert(obj_get(prev, name) is None);
        unread_is_absent(prev, name);
        if k == name {
            first_named_is_read(b, k, m as int);
        } else {
            reveal(obj_get);
            assert(obj_get(b, k) == obj_get(a, k)) by {
                let i = obj_index(a, k);
                let j = obj_index(b, k);
                if j < a.len() {
                    assert(b[j] == a[j]);
                }
                if i < a.len() {
                    assert(b[i] == a[i]);
                }
            }
        }
        match p[n - 1].1 {
            JsonV::Null => {
                changes_behind(prev, none, name, JsonV::Null);
                assert(prev + none =~= prev);
                absent_is_not_read(none, name, JsonV::Null);
                assert(obj_remove(none, name) =~= none) by {
                    reveal(obj_remove);
                }
            },
            x => {
                let v = match x {
                    JsonV::Object(q) => JsonV::Object(merge_members(obj_part(obj_get(prev, name)), q, q.len())),
                    v => v,
                };
                absent_is_not_read(prev, name, v);
                let r = prev.push((name, v));
                assert(merge_members(none, p, n) == r);
                if k == name {
                    first_named_is_read(r, k, prev.len() as int);
                } else {
                    reveal(obj_get);
                    let i = obj_index(prev, k);
                    let j = obj_index(r, k);
                    if j < prev.len() {
                        assert(r[j] == prev[j]);
                    }
                    if i < prev.len() {
                        assert(r[i] == prev[i]);
                    }
                }
            },
        }
    }
}

/// A member is read from swept data as it was, but swept itself.
pub proof fn swept_member_is_read(p: ObjV, k: Seq<char>)
    requires
        obj_wf(p),
    ensures
        obj_get(swept(p), k) == swept_member(obj_get(p, k)),
{
    swept_upto_is_read(p, k, p.len());
    assert(p.take(p.len() as int) =~= p);
}

/// What the wire keeps of fields that a parse did not model.
pub open spec fn kept(fields: ObjV) -> ObjV {
    swept(non_null(fields, fields.len()))
}

/// Fields that a parse did not model are merged as the data that they became.
pub proof fn fields_are_merged(fmt: Seq<char>, t: ObjV, fields: ObjV)
    ensures
        extra_merged(extra_from_unknown(fmt, fields), fmt, JsonV::Object(t)) == JsonV::Object(
            merged(t, non_null(fields, fields.len())),
        ),
        extra_ns(extra_from_unknown(fmt, fields), fmt) == non_null(fields, fields.len()),
        extra_has(extra_from_unknown(fmt, fields), fmt) == (kept(fields).len() > 0),
        extra_has_any(extra_from_unknown(fmt, fields)) == (kept(fields).len() > 0),
{
    reveal(extra_get);
    swept_data_is_there(fields);
    let p = non_null(fields, fields.len());
    let e = extra_from_unknown(fmt, fields);
    if p.len() > 0 {
        assert(e[0].1.len() > 0);
    } else {
        assert(p =~= Seq::<(Seq<char>, JsonV)>::empty());
        assert(merged(t, p) == t);
    }
}

/// What the wire keeps of unmodeled fields is clean, avoids the modeled names,
/// and is all kept from then on.
pub proof fn kept_fields_stay(fields: ObjV)
    ensures
        clean(kept(fields)),
        kept(kept(fields)) == kept(fields),
        non_null(kept(fields), kept(fields).len()) == kept(fields),
{
    let p = non_null(fields, fields.len());
    swept_data_is_clean(p);
    swept_data_stays(p);
    nothing_is_dropped(kept(fields), kept(fields).len());
    assert(kept(fields).take(kept(fields).len() as int) =~= kept(fields));
}

/// Kept fields have no name that the fields did not have.
pub proof fn kept_fields_avoid(fields: ObjV, known: Seq<Seq<char>>)
    requires
        avoids(fields, known),
    ensures
        avoids(kept(fields), known),
{
    non_null_avoids(fields, known);
    swept_data_avoids(non_null(fields, fields.len()), known);
}

/// Members with modeled names are apart from those without.
pub proof fn known_are_apart(t: ObjV, p: ObjV, known: Seq<Seq<char>>)
    requires
        within(t, known),
        avoids(p, known),
    ensures
        forall|i: int| 0 <= i < p.len() ==> absent(t, (#[trigger] p[i]).0),
{
    assert forall|i: int| 0 <= i < p.len() implies absent(t, (#[trigger] p[i]).0) by {
        assert(!known.contains(p[i].0));
        assert forall|j: int| 0 <= j < t.len() implies (#[trigger] t[j]).0 != p[i].0 by {
            assert(known.contains(t[j].0));
        }
    }
}

/// Unmodeled fields go behind the members of a node, and are told apart from
/// them again.
pub proof fn unmodeled_fields_are_kept(fmt: Seq<char>, t: ObjV, fields: ObjV, known: Seq<Seq<char>>)
    requires
        within(t, known),
        avoids(fields, known),
    ensures
        extra_merged(extra_from_unknown(fmt, fields), fmt, JsonV::Object(t)) == JsonV::Object(t + kept(fields)),
        unknown(t + kept(fields), known) == kept(fields),
        avoids(kept(fields), known),
{
    let p = non_null(fields, fields.len());
    fields_are_merged(fmt, t, fields);
    non_null_avoids(fields, known);
    kept_fields_avoid(fields, known);
    known_are_apart(t, p, known);
    apart_data_is_appended(t, p, p.len());
    unmodeled_members_are_kept(t, kept(fields), known);
}

proof fn merge_front_member(t: ObjV, p: ObjV, x: (Seq<char>, JsonV), n: nat)
    requires
        n <= p.len(),
    ensures
        merge_members(t, p.push(x), n) == merge_members(t, p, n),
    decreases n,
{
    if n > 0 {
        merge_front_member(t, p, x, (n - 1) as nat);
    }
}

/// Data for names that the front of an object does not have goes to its back.
pub proof fn apart_data_goes_to_the_back(t: ObjV, u: ObjV, p: ObjV, n: nat)
    requires
        n <= p.len(),
        forall|i: int| 0 <= i < n ==> absent(t, (#[trigger] p[i]).0),
    ensures
        merge_members(t + u, p, n) == t + merge_members(u, p, n),
    decreases n,
{
    if n > 0 {
        apart_data_goes_to_the_back(t, u, p, (n - 1) as nat);
        let w = merge_members(u, p, (n - 1) as nat);
        let k = p[n - 1].0;
        members_behind_are_read(t, w, k);
        match p[n - 1].1 {
            JsonV::Null => {
                changes_behind(t, w, k, JsonV::Null);
            },
            JsonV::Object(q) => {
                changes_behind(t, w, k, JsonV::Object(merge_members(obj_part(obj_get(w, k)), q, q.len())));
            },
            v => {
                changes_behind(t, w, k, v);
            },
        }
    }
}

/// Merged data has no names but those of both.
pub proof fn merged_data_avoids(u: ObjV, p: ObjV, known: Seq<Seq<char>>, n: nat)
    requires
        n <= p.len(),
        clean(u),
        avoids(u, known),
        avoids(p, known),
    ensures
        avoids(merge_members(u, p, n), known),
    decreases n,
{
    if n > 0 {
        merged_data_avoids(u, p, known, (n - 1) as nat);
        merge_stays_clean(u, p, (n - 1) as nat);
        let prev = merge_members(u, p, (n - 1) as nat);
        let r = merge_members(u, p, n);
        let k = p[n - 1].0;
        assert(!known.contains(k));
        broadcast use obj_index_props;
        reveal(obj_set);
        if p[n - 1].1 is Null {
            remove_stays_clean(prev, k);
            assert forall|i: int| 0 <= i < r.len() implies !known.contains((#[trigger] r[i]).0) by {
                let a = choose|a: int| 0 <= a < prev.len() && r[i].0 == (#[trigger] prev[a]).0;
                assert(!known.contains(prev[a].0));
            }
        } else {
            assert forall|i: int| 0 <= i < r.len() implies !known.contains((#[trigger] r[i]).0) by {
                if r[i].0 != k {
                    assert(i < prev.len() && r[i].0 == prev[i].0);
                }
            }
        }
    }
}

} // verus!
