//! Laws of provider data: what a parse keeps aside in a namespace, the build
//! merges back, and the next parse keeps aside again.

use vstd::prelude::*;
use crate::decode::{extended, extended_upto, unknown, unknown_upto};
use crate::ir::{extra_from_unknown, extra_get, extra_has, extra_has_any, extra_index_from, extra_merged, extra_ns, extra_set, non_null, ExtraV};
use crate::json::{obj_get, obj_index, obj_index_props, obj_remove, obj_set, obj_wf, put_if, JsonV, ObjV};
use crate::json_laws::{merge_applies_each_member, merge_keeps_other_members, set_keeps_names_distinct, set_keeps_other_members, set_member_is_read};
use crate::merge::{merge_members, merged, obj_part};

verus! {

/// No member is named `k`.
pub open spec fn absent(o: ObjV, k: Seq<char>) -> bool {
    forall|j: int| 0 <= j < o.len() ==> (#[trigger] o[j]).0 != k
}

/// The first `n` members hold no `null`, at any depth of objects, and the
/// objects in them name each member once.
pub open spec fn null_free(o: ObjV, n: nat) -> bool
    decreases o, n,
{
    if n == 0 || n > o.len() {
        true
    } else {
        null_free(o, (n - 1) as nat) && match o[n - 1].1 {
            JsonV::Null => false,
            JsonV::Object(q) => obj_wf(q) && null_free(q, q.len()),
            _ => true,
        }
    }
}

/// Data that a merge keeps as it is: every member named once, no `null`.
pub open spec fn clean(o: ObjV) -> bool {
    obj_wf(o) && null_free(o, o.len())
}

/// No member has one of the `known` names.
pub open spec fn avoids(o: ObjV, known: Seq<Seq<char>>) -> bool {
    forall|j: int| 0 <= j < o.len() ==> !known.contains((#[trigger] o[j]).0)
}

/// Every member has one of the `known` names.
pub open spec fn within(o: ObjV, known: Seq<Seq<char>>) -> bool {
    forall|j: int| 0 <= j < o.len() ==> known.contains((#[trigger] o[j]).0)
}

/// The data is that of one format alone, and a merge beside members named
/// `known` keeps it.
pub open spec fn tidy_for(fmt: Seq<char>, e: ExtraV, known: Seq<Seq<char>>) -> bool {
    let ns = extra_ns(e, fmt);
    e == extra_from_unknown(fmt, ns) && clean(ns) && avoids(ns, known)
}

/// The first member named `k` is the one that is read.
pub proof fn first_named_is_read(o: ObjV, k: Seq<char>, i: int)
    requires
        0 <= i < o.len(),
        o[i].0 == k,
        forall|j: int| 0 <= j < i ==> (#[trigger] o[j]).0 != k,
    ensures
        obj_get(o, k) == Some(o[i].1),
        obj_index(o, k) == i,
{
    broadcast use obj_index_props;
    reveal(obj_get);
    let p = obj_index(o, k);
    if p < i {
        assert(o[p].0 == k);
    } else if p > i {
        assert(o[i].0 != k);
    }
}

/// An absent member is not read, and setting it appends it.
pub proof fn absent_is_not_read(o: ObjV, k: Seq<char>, v: JsonV)
    requires
        absent(o, k),
    ensures
        obj_get(o, k) is None,
        obj_set(o, k, v) == o.push((k, v)),
{
    broadcast use obj_index_props;
    reveal(obj_get);
    reveal(obj_set);
    let p = obj_index(o, k);
    if p < o.len() {
        assert(o[p].0 == k);
    }
}

/// Removing an absent member changes nothing.
pub proof fn removing_nothing(o: ObjV, k: Seq<char>)
    requires
        absent(o, k),
    ensures
        obj_remove(o, k) == o,
{
    broadcast use obj_index_props;
    reveal(obj_remove);
    let p = obj_index(o, k);
    if p < o.len() {
        assert(o[p].0 == k);
    }
}

/// A patch of new members is appended as it is.
pub proof fn new_members_are_appended(t: ObjV, p: ObjV, n: nat)
    requires
        n <= p.len(),
        obj_wf(p),
        null_free(p, n),
        forall|i: int| 0 <= i < n ==> absent(t, (#[trigger] p[i]).0),
    ensures
        merge_members(t, p, n) == t + p.take(n as int),
    decreases p, n,
{
    if n == 0 {
        assert(t + p.take(0) =~= t);
    } else {
        new_members_are_appended(t, p, (n - 1) as nat);
        let prev = t + p.take(n - 1);
        let k = p[n - 1].0;
        assert forall|j: int| 0 <= j < prev.len() implies (#[trigger] prev[j]).0 != k by {
            if j < t.len() {
                assert(absent(t, p[n - 1].0));
                assert(t[j].0 != k);
            } else {
                assert(prev[j] == p[j - t.len()]);
                assert(p[j - t.len()].0 != p[n - 1].0);
            }
        }
        match p[n - 1].1 {
            JsonV::Null => {},
            JsonV::Object(q) => {
                let none = Seq::<(Seq<char>, JsonV)>::empty();
                new_members_are_appended(none, q, q.len());
                assert(none + q.take(q.len() as int) =~= q);
                absent_is_not_read(prev, k, JsonV::Object(q));
            },
            v => {
                absent_is_not_read(prev, k, v);
            },
        }
        assert(prev.push(p[n - 1]) =~= t + p.take(n as int));
    }
}

/// Setting new members one by one appends them.
pub proof fn extending_appends(o: ObjV, more: ObjV, n: nat)
    requires
        n <= more.len(),
        obj_wf(more),
        forall|i: int| 0 <= i < n ==> absent(o, (#[trigger] more[i]).0),
    ensures
        extended_upto(o, more, n) == o + more.take(n as int),
    decreases n,
{
    if n == 0 {
        assert(o + more.take(0) =~= o);
    } else {
        extending_appends(o, more, (n - 1) as nat);
        let prev = o + more.take(n - 1);
        let k = more[n - 1].0;
        assert forall|j: int| 0 <= j < prev.len() implies (#[trigger] prev[j]).0 != k by {
            if j < o.len() {
                assert(absent(o, more[n - 1].0));
                assert(o[j].0 != k);
            } else {
                assert(prev[j] == more[j - o.len()]);
                assert(more[j - o.len()].0 != more[n - 1].0);
            }
        }
        absent_is_not_read(prev, k, more[n - 1].1);
        assert(prev.push(more[n - 1]) =~= o + more.take(n as int));
    }
}

proof fn known_are_left_out(t: ObjV, p: ObjV, known: Seq<Seq<char>>, n: nat)
    requires
        within(t, known),
        avoids(p, known),
        n <= t.len() + p.len(),
    ensures
        unknown_upto(t + p, known, n) == (t + p).subrange(
            if n <= t.len() { n as int } else { t.len() as int },
            n as int,
        ),
    decreases n,
{
    let o = t + p;
    if n > 0 {
        known_are_left_out(t, p, known, (n - 1) as nat);
        if n <= t.len() {
            assert(o[n - 1] == t[n - 1]);
            assert(known.contains(t[n - 1].0));
            assert(o.subrange(n as int, n as int) =~= o.subrange(n - 1, n - 1));
        } else {
            let b = p[n - 1 - t.len()];
            assert(o[n - 1] == b);
            assert(!known.contains(b.0));
            assert(o.subrange(t.len() as int, n - 1).push(b) =~= o.subrange(t.len() as int, n as int));
        }
    } else {
        assert(o.subrange(0, 0) =~= Seq::<(Seq<char>, JsonV)>::empty());
    }
}

/// The members of a node that a type does not model are those behind the
/// modeled ones.
pub proof fn unmodeled_members_are_kept(t: ObjV, p: ObjV, known: Seq<Seq<char>>)
    requires
        within(t, known),
        avoids(p, known),
    ensures
        unknown(t + p, known) == p,
{
    known_are_left_out(t, p, known, t.len() + p.len());
    assert((t + p).subrange(t.len() as int, (t + p).len() as int) =~= p);
}

proof fn unknown_split(a: ObjV, b: ObjV, known: Seq<Seq<char>>, n: nat)
    requires
        n <= b.len(),
    ensures
        unknown_upto(a + b, known, a.len() + n) == unknown(a, known) + unknown_upto(b, known, n),
    decreases n,
{
    let o = a + b;
    if n == 0 {
        unknown_front(a, b, known, a.len());
        let none = Seq::<(Seq<char>, JsonV)>::empty();
        assert(unknown(a, known) + none =~= unknown(a, known));
    } else {
        unknown_split(a, b, known, (n - 1) as nat);
        assert(o[a.len() + n - 1] == b[n - 1]);
        let u = unknown_upto(b, known, (n - 1) as nat);
        assert((unknown(a, known) + u).push(b[n - 1]) =~= unknown(a, known) + u.push(b[n - 1]));
    }
}

proof fn unknown_front(a: ObjV, b: ObjV, known: Seq<Seq<char>>, n: nat)
    requires
        n <= a.len(),
    ensures
        unknown_upto(a + b, known, n) == unknown_upto(a, known, n),
    decreases n,
{
    if n > 0 {
        unknown_front(a, b, known, (n - 1) as nat);
        assert((a + b)[n - 1] == a[n - 1]);
    }
}

/// The members of two stretches that a type does not model are those of the
/// first and those of the second.
pub proof fn unmodeled_members_add_up(a: ObjV, b: ObjV, known: Seq<Seq<char>>)
    ensures
        unknown(a + b, known) == unknown(a, known) + unknown(b, known),
{
    unknown_split(a, b, known, b.len());
}

/// Modeled members are all known.
pub proof fn modeled_members_are_known(t: ObjV, known: Seq<Seq<char>>)
    requires
        within(t, known),
    ensures
        unknown(t, known) == Seq::<(Seq<char>, JsonV)>::empty(),
{
    let none = Seq::<(Seq<char>, JsonV)>::empty();
    unmodeled_members_are_kept(t, none, known);
    assert(t + none =~= t);
}

proof fn null_free_member(o: ObjV, n: nat, i: int)
    requires
        0 <= i < n <= o.len(),
        null_free(o, n),
    ensures
        !(o[i].1 is Null),
    decreases n,
{
    if i < n - 1 {
        null_free_member(o, (n - 1) as nat, i);
    }
}

/// Data without `null` members is all there.
pub proof fn nothing_is_dropped(o: ObjV, n: nat)
    requires
        n <= o.len(),
        null_free(o, n),
    ensures
        non_null(o, n) == o.take(n as int),
    decreases n,
{
    if n > 0 {
        nothing_is_dropped(o, (n - 1) as nat);
        null_free_member(o, n, n - 1);
        assert(o.take(n - 1).push(o[n - 1]) =~= o.take(n as int));
    } else {
        assert(o.take(0) =~= Seq::<(Seq<char>, JsonV)>::empty());
    }
}

/// Provider data made of clean members holds exactly these members.
pub proof fn namespace_holds_its_members(fmt: Seq<char>, ns: ObjV)
    requires
        clean(ns),
    ensures
        extra_ns(extra_from_unknown(fmt, ns), fmt) == ns,
        extra_has(extra_from_unknown(fmt, ns), fmt) == (ns.len() > 0),
        extra_has_any(extra_from_unknown(fmt, ns)) == (ns.len() > 0),
        ns.len() == 0 ==> extra_from_unknown(fmt, ns) == Seq::<(Seq<char>, ObjV)>::empty(),
{
    nothing_is_dropped(ns, ns.len());
    assert(ns.take(ns.len() as int) =~= ns);
    reveal(extra_get);
    let e = extra_from_unknown(fmt, ns);
    if ns.len() > 0 {
        assert(e[0].0 == fmt);
        assert(extra_index_from(e, fmt, 0) == 0);
        assert(e[0].1 == ns);
    } else {
        assert(extra_index_from(e, fmt, 0) == 0);
    }
}

/// A node keeps its provider data: merged into the modeled members `t`, the
/// namespace stands behind them, and is what the next parse keeps aside.
pub proof fn provider_data_survives(fmt: Seq<char>, t: ObjV, ns: ObjV, known: Seq<Seq<char>>)
    requires
        clean(ns),
        within(t, known),
        avoids(ns, known),
    ensures
        extra_merged(extra_from_unknown(fmt, ns), fmt, JsonV::Object(t)) == JsonV::Object(t + ns),
        unknown(t + ns, known) == ns,
{
    namespace_holds_its_members(fmt, ns);
    assert forall|i: int| 0 <= i < ns.len() implies absent(t, (#[trigger] ns[i]).0) by {
        assert(!known.contains(ns[i].0));
        assert forall|j: int| 0 <= j < t.len() implies (#[trigger] t[j]).0 != ns[i].0 by {
            assert(known.contains(t[j].0));
        }
    }
    new_members_are_appended(t, ns, ns.len());
    assert(ns.take(ns.len() as int) =~= ns);
    unmodeled_members_are_kept(t, ns, known);
    if ns.len() == 0 {
        assert(t + ns =~= t);
    }
}

proof fn extra_index_props(e: ExtraV, fmt: Seq<char>, i: int)
    requires
        0 <= i <= e.len(),
    ensures
        i <= extra_index_from(e, fmt, i) <= e.len(),
        extra_index_from(e, fmt, i) < e.len() ==> e[extra_index_from(e, fmt, i)].0 == fmt,
        forall|j: int| i <= j < extra_index_from(e, fmt, i) ==> (#[trigger] e[j]).0 != fmt,
    decreases e.len() - i,
{
    if i < e.len() && e[i].0 != fmt {
        extra_index_props(e, fmt, i + 1);
    }
}

proof fn extra_index_same(e: ExtraV, d: ExtraV, fmt: Seq<char>, i: int)
    requires
        e.len() <= d.len(),
        0 <= i <= e.len(),
        forall|j: int| 0 <= j < e.len() ==> (#[trigger] e[j]).0 == d[j].0,
        forall|j: int| e.len() <= j < d.len() ==> (#[trigger] d[j]).0 != fmt,
    ensures
        extra_index_from(e, fmt, i) < e.len() ==> extra_index_from(d, fmt, i) == extra_index_from(e, fmt, i),
        extra_index_from(e, fmt, i) >= e.len() ==> extra_index_from(d, fmt, i) >= d.len(),
    decreases e.len() - i,
{
    if i < e.len() {
        assert(e[i].0 == d[i].0);
        if e[i].0 != fmt {
            extra_index_same(e, d, fmt, i + 1);
        }
    } else {
        extra_index_props(d, fmt, i);
    }
}

/// Data of one format leaves that of every other format as it was.
pub proof fn namespaces_are_apart(e: ExtraV, fmt: Seq<char>, k: Seq<char>, v: JsonV, other: Seq<char>)
    requires
        other != fmt,
    ensures
        extra_get(extra_set(e, fmt, k, v), other) == extra_get(e, other),
{
    reveal(extra_get);
    extra_index_props(e, fmt, 0);
    let d = extra_set(e, fmt, k, v);
    extra_index_same(e, d, other, 0);
    extra_index_props(e, other, 0);
}

/// A format merges nothing of the data of other formats.
pub proof fn foreign_data_is_not_merged(e: ExtraV, fmt: Seq<char>, j: JsonV)
    requires
        forall|i: int| 0 <= i < e.len() ==> (#[trigger] e[i]).0 != fmt,
    ensures
        extra_merged(e, fmt, j) == j,
{
    reveal(extra_get);
    extra_index_props(e, fmt, 0);
}

/// An object of the first `n` fields that have a value, in order.
pub open spec fn put_all(fields: Seq<(Seq<char>, Option<JsonV>)>, n: nat) -> ObjV
    decreases n,
{
    if n == 0 || n > fields.len() {
        Seq::empty()
    } else {
        put_if(put_all(fields, (n - 1) as nat), fields[n - 1].0, fields[n - 1].1)
    }
}

/// No two fields share a name.
pub open spec fn names_differ(fields: Seq<(Seq<char>, Option<JsonV>)>) -> bool {
    forall|i: int, j: int| 0 <= i < j < fields.len() ==> (#[trigger] fields[i]).0 != (#[trigger] fields[j]).0
}

/// An object of fields holds each field that has a value, under its name, and
/// nothing else.
pub proof fn put_fields_are_read(fields: Seq<(Seq<char>, Option<JsonV>)>, n: nat, i: int)
    requires
        0 <= i < n <= fields.len(),
        names_differ(fields),
    ensures
        obj_get(put_all(fields, n), fields[i].0) == fields[i].1,
    decreases n,
{
    let prev = put_all(fields, (n - 1) as nat);
    let k = fields[n - 1].0;
    if i == n - 1 {
        put_fields_are_named(fields, (n - 1) as nat, k);
        match fields[i].1 {
            Some(v) => {
                set_member_is_read(prev, k, v);
            },
            None => {
                absent_is_not_read(prev, k, JsonV::Null);
            },
        }
    } else {
        put_fields_are_read(fields, (n - 1) as nat, i);
        assert(fields[i].0 != fields[n - 1].0);
        match fields[n - 1].1 {
            Some(v) => {
                set_keeps_other_members(prev, k, v, fields[i].0);
            },
            None => {},
        }
    }
}

/// A name that no field has is not in the object.
pub proof fn put_fields_are_named(fields: Seq<(Seq<char>, Option<JsonV>)>, n: nat, k: Seq<char>)
    requires
        n <= fields.len(),
        forall|i: int| 0 <= i < n ==> (#[trigger] fields[i]).0 != k,
    ensures
        absent(put_all(fields, n), k),
    decreases n,
{
    if n > 0 {
        put_fields_are_named(fields, (n - 1) as nat, k);
        let prev = put_all(fields, (n - 1) as nat);
        match fields[n - 1].1 {
            Some(v) => {
                broadcast use obj_index_props;
                reveal(obj_set);
                let o = obj_set(prev, fields[n - 1].0, v);
                assert forall|j: int| 0 <= j < o.len() implies (#[trigger] o[j]).0 != k by {
                    if j < prev.len() {
                        assert(prev[j].0 != k);
                    }
                }
            },
            None => {},
        }
    }
}

/// The names in an object of fields are among `known`, if those of the fields
/// are.
pub proof fn put_fields_are_known(fields: Seq<(Seq<char>, Option<JsonV>)>, n: nat, known: Seq<Seq<char>>)
    requires
        n <= fields.len(),
        forall|i: int| 0 <= i < n ==> known.contains((#[trigger] fields[i]).0),
    ensures
        within(put_all(fields, n), known),
    decreases n,
{
    if n > 0 {
        put_fields_are_known(fields, (n - 1) as nat, known);
        let prev = put_all(fields, (n - 1) as nat);
        match fields[n - 1].1 {
            Some(v) => {
                broadcast use obj_index_props;
                reveal(obj_set);
                let o = obj_set(prev, fields[n - 1].0, v);
                assert forall|j: int| 0 <= j < o.len() implies known.contains((#[trigger] o[j]).0) by {
                    if j < prev.len() {
                        assert(known.contains(prev[j].0));
                    }
                    assert(known.contains(fields[n - 1].0));
                }
            },
            None => {},
        }
    }
}

/// Data behind the members of an object does not hide them.
pub proof fn front_members_are_read(t: ObjV, ns: ObjV, known: Seq<Seq<char>>, k: Seq<char>)
    requires
        known.contains(k),
        avoids(ns, known),
    ensures
        obj_get(t + ns, k) == obj_get(t, k),
{
    broadcast use obj_index_props;
    reveal(obj_get);
    let o = t + ns;
    let i = obj_index(t, k);
    if i < t.len() {
        assert(o[i] == t[i]);
        assert forall|j: int| 0 <= j < i implies (#[trigger] o[j]).0 != k by {
            assert(o[j] == t[j]);
        }
        first_named_is_read(o, k, i);
    } else {
        assert forall|j: int| 0 <= j < o.len() implies (#[trigger] o[j]).0 != k by {
            if j < t.len() {
                assert(o[j] == t[j]);
            } else {
                assert(o[j] == ns[j - t.len()]);
                assert(!known.contains(ns[j - t.len()].0));
            }
        }
        absent_is_not_read(o, k, JsonV::Null);
    }
}

proof fn set_twice(o: ObjV, k: Seq<char>, v: JsonV, w: JsonV)
    ensures
        obj_set(obj_set(o, k, v), k, w) == obj_set(o, k, w),
{
    broadcast use obj_index_props;
    reveal(obj_set);
    let i = obj_index(o, k);
    let p = obj_set(o, k, v);
    let at = if i < o.len() { i } else { o.len() as int };
    assert forall|j: int| 0 <= j < at implies (#[trigger] p[j]).0 != k by {
        assert(p[j] == o[j]);
    }
    first_named_is_read(p, k, at);
    assert(obj_set(p, k, w) =~= obj_set(o, k, w));
}

proof fn sets_commute(o: ObjV, k: Seq<char>, v: JsonV, l: Seq<char>, w: JsonV)
    requires
        k != l,
        obj_get(o, k) is Some,
    ensures
        obj_set(obj_set(o, l, w), k, v) == obj_set(obj_set(o, k, v), l, w),
{
    broadcast use obj_index_props;
    reveal(obj_set);
    reveal(obj_get);
    let i = obj_index(o, k);
    let p = obj_set(o, l, w);
    assert forall|j: int| 0 <= j < i implies (#[trigger] p[j]).0 != k by {
        assert(o[j].0 != k);
    }
    first_named_is_read(p, k, i);
    let q = obj_set(o, k, v);
    let m = obj_index(o, l);
    if m < o.len() {
        assert forall|j: int| 0 <= j < m implies (#[trigger] q[j]).0 != l by {
            assert(o[j].0 != l);
        }
        first_named_is_read(q, l, m);
    } else {
        assert forall|j: int| 0 <= j < q.len() implies (#[trigger] q[j]).0 != l by {
            assert(o[j].0 != l);
        }
        absent_is_not_read(q, l, w);
    }
    assert(obj_set(p, k, v) =~= obj_set(q, l, w));
}

/// Setting a field once more keeps its place among the fields.
pub proof fn field_is_replaced(fields: Seq<(Seq<char>, Option<JsonV>)>, n: nat, i: int, v: JsonV)
    requires
        0 <= i < n <= fields.len(),
        names_differ(fields),
        fields[i].1 is Some,
    ensures
        obj_set(put_all(fields, n), fields[i].0, v) == put_all(fields.update(i, (fields[i].0, Some(v))), n),
    decreases n,
{
    let g = fields.update(i, (fields[i].0, Some(v)));
    let k = fields[i].0;
    let prev = put_all(fields, (n - 1) as nat);
    if i == n - 1 {
        fields_before(fields, g, (n - 1) as nat);
        set_twice(prev, k, fields[i].1->0, v);
    } else {
        field_is_replaced(fields, (n - 1) as nat, i, v);
        assert(g[n - 1] == fields[n - 1]);
        assert(fields[i].0 != fields[n - 1].0);
        put_fields_are_read(fields, (n - 1) as nat, i);
        if fields[n - 1].1 is Some {
            sets_commute(prev, k, v, fields[n - 1].0, fields[n - 1].1->0);
        }
    }
}

proof fn fields_before(a: Seq<(Seq<char>, Option<JsonV>)>, b: Seq<(Seq<char>, Option<JsonV>)>, n: nat)
    requires
        n <= a.len() == b.len(),
        forall|j: int| 0 <= j < n ==> (#[trigger] a[j]) == b[j],
    ensures
        put_all(a, n) == put_all(b, n),
    decreases n,
{
    if n > 0 {
        fields_before(a, b, (n - 1) as nat);
        assert(a[n - 1] == b[n - 1]);
    }
}

/// A name that is not among the members in front is read from the data behind
/// them.
pub proof fn members_behind_are_read(t: ObjV, ns: ObjV, k: Seq<char>)
    requires
        absent(t, k),
    ensures
        obj_get(t + ns, k) == obj_get(ns, k),
{
    broadcast use obj_index_props;
    reveal(obj_get);
    let o = t + ns;
    let i = obj_index(ns, k);
    if i < ns.len() {
        assert(o[t.len() + i] == ns[i]);
        assert forall|j: int| 0 <= j < t.len() + i implies (#[trigger] o[j]).0 != k by {
            if j < t.len() {
                assert(o[j] == t[j]);
            } else {
                assert(o[j] == ns[j - t.len()]);
            }
        }
        first_named_is_read(o, k, t.len() + i);
    } else {
        assert forall|j: int| 0 <= j < o.len() implies (#[trigger] o[j]).0 != k by {
            if j < t.len() {
                assert(o[j] == t[j]);
            } else {
                assert(o[j] == ns[j - t.len()]);
            }
        }
        absent_is_not_read(o, k, JsonV::Null);
    }
}

/// An object of fields is read as these fields, and nothing in it is unknown
/// to a type that has them all.
pub proof fn fields_are_read(fields: Seq<(Seq<char>, Option<JsonV>)>, known: Seq<Seq<char>>)
    requires
        names_differ(fields),
        forall|i: int| 0 <= i < fields.len() ==> known.contains((#[trigger] fields[i]).0),
    ensures
        forall|i: int|
            0 <= i < fields.len() ==> obj_get(put_all(fields, fields.len()), (#[trigger] fields[i]).0) == fields[i].1,
        unknown(put_all(fields, fields.len()), known) == Seq::<(Seq<char>, JsonV)>::empty(),
{
    let o = put_all(fields, fields.len());
    assert forall|i: int| 0 <= i < fields.len() implies obj_get(o, (#[trigger] fields[i]).0) == fields[i].1 by {
        put_fields_are_read(fields, fields.len(), i);
    }
    put_fields_are_known(fields, fields.len(), known);
    let none = Seq::<(Seq<char>, JsonV)>::empty();
    unmodeled_members_are_kept(o, none, known);
    assert(o + none =~= o);
}

/// An object of modeled members alone holds nothing else.
pub proof fn two_members_are_read(k: Seq<char>, v: JsonV, l: Seq<char>, w: JsonV, known: Seq<Seq<char>>)
    requires
        k != l,
        known.contains(k),
        known.contains(l),
    ensures
        ({
            let o = seq![(k, v), (l, w)];
            &&& obj_get(o, k) == Some(v)
            &&& obj_get(o, l) == Some(w)
            &&& forall|n: Seq<char>| n != k && n != l ==> #[trigger] obj_get(o, n) is None
            &&& unknown(o, known) == Seq::<(Seq<char>, JsonV)>::empty()
        }),
{
    let o = seq![(k, v), (l, w)];
    first_named_is_read(o, k, 0);
    first_named_is_read(o, l, 1);
    assert forall|n: Seq<char>| n != k && n != l implies (#[trigger] obj_get(o, n)) is None by {
        absent_is_not_read(o, n, JsonV::Null);
    }
    modeled_members_are_known(o, known);
}

/// An object of one modeled member holds nothing else.
pub proof fn one_member_is_read(k: Seq<char>, v: JsonV, known: Seq<Seq<char>>)
    requires
        known.contains(k),
    ensures
        ({
            let o = seq![(k, v)];
            &&& obj_get(o, k) == Some(v)
            &&& forall|n: Seq<char>| n != k ==> #[trigger] obj_get(o, n) is None
            &&& unknown(o, known) == Seq::<(Seq<char>, JsonV)>::empty()
        }),
{
    let o = seq![(k, v)];
    first_named_is_read(o, k, 0);
    assert forall|n: Seq<char>| n != k implies (#[trigger] obj_get(o, n)) is None by {
        absent_is_not_read(o, n, JsonV::Null);
    }
    modeled_members_are_known(o, known);
}

/// A modeled name that no modeled member has is not in the node.
pub proof fn not_there(t: ObjV, ns: ObjV, known: Seq<Seq<char>>, k: Seq<char>)
    requires
        known.contains(k),
        avoids(ns, known),
        absent(t, k),
    ensures
        obj_get(t + ns, k) is None,
{
    let o = t + ns;
    assert forall|j: int| 0 <= j < o.len() implies (#[trigger] o[j]).0 != k by {
        if j < t.len() {
            assert(o[j] == t[j]);
        } else {
            assert(o[j] == ns[j - t.len()]);
            assert(!known.contains(ns[j - t.len()].0));
        }
    }
    absent_is_not_read(o, k, JsonV::Null);
}

/// A modeled member is read, whatever data stands behind the modeled ones.
pub proof fn there(t: ObjV, ns: ObjV, k: Seq<char>, i: int)
    requires
        0 <= i < t.len(),
        t[i].0 == k,
        forall|j: int| 0 <= j < i ==> (#[trigger] t[j]).0 != k,
    ensures
        obj_get(t + ns, k) == Some(t[i].1),
{
    let o = t + ns;
    assert(o[i] == t[i]);
    assert forall|j: int| 0 <= j < i implies (#[trigger] o[j]).0 != k by {
        assert(o[j] == t[j]);
    }
    first_named_is_read(o, k, i);
}

/// Setting members in an empty object gives these members.
pub proof fn extended_nothing(ns: ObjV)
    requires
        obj_wf(ns),
    ensures
        extended(Seq::empty(), ns) == ns,
{
    let none = Seq::<(Seq<char>, JsonV)>::empty();
    extending_appends(none, ns, ns.len());
    assert(none + ns.take(ns.len() as int) =~= ns);
}

/// A prefix of data without `null` has none either.
pub proof fn null_free_prefix(o: ObjV, p: ObjV, n: nat)
    requires
        n <= p.len() <= o.len(),
        null_free(o, o.len()),
        forall|i: int| 0 <= i < p.len() ==> (#[trigger] p[i]) == o[i],
    ensures
        null_free(p, n),
        null_free(o, n),
    decreases n,
{
    null_free_smaller(o, o.len(), n);
    if n > 0 {
        null_free_prefix(o, p, (n - 1) as nat);
        assert(p[n - 1] == o[n - 1]);
    }
}

proof fn null_free_smaller(o: ObjV, n: nat, m: nat)
    requires
        m <= n <= o.len(),
        null_free(o, n),
    ensures
        null_free(o, m),
    decreases n - m,
{
    if m < n {
        null_free_smaller(o, (n - 1) as nat, m);
    }
}

/// The data under member `k` of provider data.
pub open spec fn data_under(ns: ObjV, k: Seq<char>) -> ObjV {
    obj_part(obj_get(ns, k))
}

/// Data for objects that a node generates: a member with a known name is an
/// object.
pub open spec fn nests(ns: ObjV, known: Seq<Seq<char>>) -> bool {
    forall|i: int| 0 <= i < ns.len() && known.contains((#[trigger] ns[i]).0) ==> ns[i].1 is Object
}

/// A member that is not read is absent.
pub proof fn unread_is_absent(o: ObjV, k: Seq<char>)
    requires
        obj_get(o, k) is None,
    ensures
        absent(o, k),
{
    broadcast use obj_index_props;
    reveal(obj_get);
    assert forall|j: int| 0 <= j < o.len() implies (#[trigger] o[j]).0 != k by {
        assert(j < obj_index(o, k));
    }
}

proof fn unknown_update(o: ObjV, i: int, k: Seq<char>, v: JsonV, known: Seq<Seq<char>>, n: nat)
    requires
        0 <= i < o.len(),
        o[i].0 == k,
        known.contains(k),
        n <= o.len(),
    ensures
        unknown_upto(o.update(i, (k, v)), known, n) == unknown_upto(o, known, n),
    decreases n,
{
    if n > 0 {
        unknown_update(o, i, k, v, known, (n - 1) as nat);
    }
}

/// Setting a modeled member leaves the unmodeled ones as they were.
pub proof fn modeled_set_keeps_unknown(o: ObjV, k: Seq<char>, v: JsonV, known: Seq<Seq<char>>)
    requires
        known.contains(k),
    ensures
        unknown(obj_set(o, k, v), known) == unknown(o, known),
{
    broadcast use obj_index_props;
    reveal(obj_set);
    let i = obj_index(o, k);
    if i < o.len() {
        unknown_update(o, i, k, v, known, o.len());
    } else {
        let one = seq![(k, v)];
        modeled_members_are_known(one, known);
        unmodeled_members_add_up(o, one, known);
        assert(o.push((k, v)) =~= o + one);
        let none = Seq::<(Seq<char>, JsonV)>::empty();
        assert(unknown(o, known) + none =~= unknown(o, known));
    }
}

/// The unmodeled members of a node after a merge are those of the data, in
/// order; data for modeled members nests into them.
pub proof fn merge_keeps_unknown(t: ObjV, ns: ObjV, known: Seq<Seq<char>>, n: nat)
    requires
        n <= ns.len(),
        clean(ns),
        within(t, known),
        nests(ns, known),
    ensures
        unknown(merge_members(t, ns, n), known) == unknown_upto(ns, known, n),
    decreases n,
{
    if n == 0 {
        modeled_members_are_known(t, known);
    } else {
        let q = (n - 1) as nat;
        merge_keeps_unknown(t, ns, known, q);
        null_free_member(ns, ns.len(), q as int);
        let prev = merge_members(t, ns, q);
        let k = ns[q as int].0;
        if known.contains(k) {
            assert(ns[q as int].1 is Object);
            let m = ns[q as int].1->Object_0;
            modeled_set_keeps_unknown(
                prev,
                k,
                JsonV::Object(merge_members(obj_part(obj_get(prev, k)), m, m.len())),
                known,
            );
        } else {
            assert forall|j: int| 0 <= j < q implies (#[trigger] ns[j]).0 != k by {
                assert(ns[j].0 != ns[q as int].0);
            }
            merge_keeps_other_members(t, ns, q, k);
            assert forall|j: int| 0 <= j < t.len() implies (#[trigger] t[j]).0 != k by {
                assert(known.contains(t[j].0));
            }
            absent_is_not_read(t, k, JsonV::Null);
            unread_is_absent(prev, k);
            let v = ns[q as int].1;
            if let JsonV::Object(m) = v {
                let none = Seq::<(Seq<char>, JsonV)>::empty();
                null_free_object(ns, ns.len(), q as int);
                new_members_are_appended(none, m, m.len());
                assert(none + m.take(m.len() as int) =~= m);
            }
            absent_is_not_read(prev, k, v);
            assert(merge_members(t, ns, n) == prev.push((k, v)));
            let one = seq![(k, v)];
            let none = Seq::<(Seq<char>, JsonV)>::empty();
            unmodeled_members_are_kept(none, one, known);
            assert(none + one =~= one);
            unmodeled_members_add_up(prev, one, known);
            assert(prev.push((k, v)) =~= prev + one);
            assert(unknown(prev, known) + one =~= unknown(prev, known).push((k, v)));
        }
    }
}

proof fn null_free_object(o: ObjV, n: nat, i: int)
    requires
        0 <= i < n <= o.len(),
        null_free(o, n),
        o[i].1 is Object,
    ensures
        obj_wf(o[i].1->Object_0),
        null_free(o[i].1->Object_0, o[i].1->Object_0.len()),
    decreases n,
{
    if i < n - 1 {
        null_free_object(o, (n - 1) as nat, i);
    }
}

/// A modeled object takes its data in behind its members; without data it
/// stays as it was.
pub proof fn nested_data_is_read(t: ObjV, ns: ObjV, k: Seq<char>, known: Seq<Seq<char>>)
    requires
        obj_wf(t),
        clean(ns),
        obj_get(ns, k) is Some ==> obj_get(ns, k)->0 is Object,
        within(obj_part(obj_get(t, k)), known),
        avoids(data_under(ns, k), known),
    ensures
        clean(data_under(ns, k)),
        obj_get(merged(t, ns), k) == match obj_get(ns, k) {
            Some(_) => Some(JsonV::Object(obj_part(obj_get(t, k)) + data_under(ns, k))),
            None => obj_get(t, k),
        },
{
    broadcast use obj_index_props;
    let inner = obj_part(obj_get(t, k));
    let q = data_under(ns, k);
    match obj_get(ns, k) {
        None => {
            unread_is_absent(ns, k);
            merge_keeps_other_members(t, ns, ns.len(), k);
        },
        Some(_) => {
            reveal(obj_get);
            let i = obj_index(ns, k);
            assert(ns[i] == (k, JsonV::Object(q)));
            null_free_object(ns, ns.len(), i);
            merge_applies_each_member(t, ns, ns.len(), i);
            assert forall|j: int| 0 <= j < q.len() implies absent(inner, (#[trigger] q[j]).0) by {
                assert(!known.contains(q[j].0));
                assert forall|m: int| 0 <= m < inner.len() implies (#[trigger] inner[m]).0 != q[j].0 by {
                    assert(known.contains(inner[m].0));
                }
            }
            new_members_are_appended(inner, q, q.len());
            assert(q.take(q.len() as int) =~= q);
        },
    }
}

/// An object of fields names each member once.
pub proof fn put_fields_are_distinct(fields: Seq<(Seq<char>, Option<JsonV>)>, n: nat)
    requires
        n <= fields.len(),
    ensures
        obj_wf(put_all(fields, n)),
    decreases n,
{
    if n > 0 {
        put_fields_are_distinct(fields, (n - 1) as nat);
        match fields[n - 1].1 {
            Some(v) => {
                set_keeps_names_distinct(put_all(fields, (n - 1) as nat), fields[n - 1].0, v);
            },
            None => {},
        }
    }
}

/// What is not modeled has none of the modeled names.
pub proof fn unknown_avoids(o: ObjV, known: Seq<Seq<char>>, n: nat)
    requires
        n <= o.len(),
    ensures
        avoids(unknown_upto(o, known, n), known),
    decreases n,
{
    if n > 0 {
        unknown_avoids(o, known, (n - 1) as nat);
    }
}

/// `ns` with `k` set to an object, unless that is empty.
pub open spec fn with_data(ns: ObjV, k: Seq<char>, o: ObjV) -> ObjV {
    if o.len() > 0 {
        obj_set(ns, k, JsonV::Object(o))
    } else {
        ns
    }
}

/// Data of a node: its unmodeled members, then data of its member `k`.
pub open spec fn two_level(d: ObjV, k: Seq<char>, known: Seq<Seq<char>>, inner_known: Seq<Seq<char>>) -> bool {
    &&& d == with_data(unknown(d, known), k, data_under(d, k))
    &&& nests(d, known)
    &&& avoids(data_under(d, k), inner_known)
}

/// Data of a node and of its member `k`, in any order.
pub open spec fn levels_apart(d: ObjV, k: Seq<char>, known: Seq<Seq<char>>, inner_known: Seq<Seq<char>>) -> bool {
    &&& nests(d, known)
    &&& avoids(data_under(d, k), inner_known)
    &&& obj_get(d, k) is Some ==> data_under(d, k).len() > 0
    &&& forall|n: Seq<char>| known.contains(n) && n != k ==> #[trigger] obj_get(d, n) is None
}

/// Data of a node and of one of its members goes where it belongs: the
/// unmodeled members are kept apart, the member takes its own in, and the
/// other members stay as they were.
pub proof fn levels_are_merged(
    t: ObjV,
    d: ObjV,
    k: Seq<char>,
    known: Seq<Seq<char>>,
    inner_known: Seq<Seq<char>>,
)
    requires
        obj_wf(t),
        within(t, known),
        clean(d),
        levels_apart(d, k, known, inner_known),
        known.contains(k),
        within(obj_part(obj_get(t, k)), inner_known),
        obj_get(t, k) is Some ==> obj_get(t, k)->0 is Object,
    ensures
        unknown(merged(t, d), known) == unknown(d, known),
        obj_get(merged(t, d), k) == (if data_under(d, k).len() > 0 {
            Some(JsonV::Object(obj_part(obj_get(t, k)) + data_under(d, k)))
        } else {
            obj_get(t, k)
        }),
        forall|n: Seq<char>| known.contains(n) && n != k ==> #[trigger] obj_get(merged(t, d), n) == obj_get(t, n),
{
    merge_keeps_unknown(t, d, known, d.len());
    assert forall|n: Seq<char>| known.contains(n) && n != k implies #[trigger] obj_get(merged(t, d), n) == obj_get(
        t,
        n,
    ) by {
        assert(obj_get(d, n) is None);
        unread_is_absent(d, n);
        merge_keeps_other_members(t, d, d.len(), n);
    }
    member_nests(d, known, k);
    nested_data_is_read(t, d, k, inner_known);
}

/// The same, for data in order.
pub proof fn two_levels_are_merged(
    t: ObjV,
    d: ObjV,
    k: Seq<char>,
    known: Seq<Seq<char>>,
    inner_known: Seq<Seq<char>>,
)
    requires
        obj_wf(t),
        within(t, known),
        clean(d),
        two_level(d, k, known, inner_known),
        known.contains(k),
        within(obj_part(obj_get(t, k)), inner_known),
        obj_get(t, k) is Some ==> obj_get(t, k)->0 is Object,
    ensures
        unknown(merged(t, d), known) == unknown(d, known),
        obj_get(merged(t, d), k) == (if data_under(d, k).len() > 0 {
            Some(JsonV::Object(obj_part(obj_get(t, k)) + data_under(d, k)))
        } else {
            obj_get(t, k)
        }),
        forall|n: Seq<char>| known.contains(n) && n != k ==> #[trigger] obj_get(merged(t, d), n) == obj_get(t, n),
{
    broadcast use obj_index_props;
    let rest = unknown(d, known);
    let q = data_under(d, k);
    unknown_avoids(d, known, d.len());
    merge_keeps_unknown(t, d, known, d.len());
    assert forall|n: Seq<char>| known.contains(n) && n != k implies #[trigger] obj_get(merged(t, d), n) == obj_get(
        t,
        n,
    ) by {
        assert forall|j: int| 0 <= j < rest.len() implies (#[trigger] rest[j]).0 != n by {
            assert(!known.contains(rest[j].0));
        }
        absent_is_not_read(rest, n, JsonV::Null);
        if q.len() > 0 {
            set_keeps_other_members(rest, k, JsonV::Object(q), n);
        }
        assert(obj_get(d, n) is None);
        unread_is_absent(d, n);
        merge_keeps_other_members(t, d, d.len(), n);
    }
    assert forall|j: int| 0 <= j < rest.len() implies (#[trigger] rest[j]).0 != k by {
        assert(!known.contains(rest[j].0));
    }
    absent_is_not_read(rest, k, JsonV::Null);
    if q.len() > 0 {
        set_member_is_read(rest, k, JsonV::Object(q));
    }
    nested_data_is_read(t, d, k, inner_known);
}

/// Data that is merged into an object merges into what the object has under
/// the same name.
pub proof fn deep_data_is_read(t: ObjV, ns: ObjV, k: Seq<char>)
    requires
        obj_wf(t),
        clean(ns),
        obj_get(ns, k) is Some ==> obj_get(ns, k)->0 is Object,
    ensures
        clean(data_under(ns, k)),
        obj_get(merged(t, ns), k) == match obj_get(ns, k) {
            Some(_) => Some(JsonV::Object(merged(obj_part(obj_get(t, k)), data_under(ns, k)))),
            None => obj_get(t, k),
        },
{
    broadcast use obj_index_props;
    match obj_get(ns, k) {
        None => {
            unread_is_absent(ns, k);
            merge_keeps_other_members(t, ns, ns.len(), k);
        },
        Some(_) => {
            reveal(obj_get);
            let i = obj_index(ns, k);
            assert(ns[i] == (k, JsonV::Object(data_under(ns, k))));
            null_free_object(ns, ns.len(), i);
            merge_applies_each_member(t, ns, ns.len(), i);
        },
    }
}

/// What a member becomes when the data under its name is merged in.
pub open spec fn merged_member(v: Option<JsonV>, ns: ObjV, k: Seq<char>) -> Option<JsonV> {
    match obj_get(ns, k) {
        Some(_) => Some(JsonV::Object(merged(obj_part(v), data_under(ns, k)))),
        None => v,
    }
}

/// Data for a modeled member is an object.
pub proof fn member_nests(ns: ObjV, known: Seq<Seq<char>>, k: Seq<char>)
    requires
        nests(ns, known),
        known.contains(k),
    ensures
        obj_get(ns, k) is Some ==> obj_get(ns, k)->0 is Object,
{
    broadcast use obj_index_props;
    reveal(obj_get);
}

/// An object of fields after data was merged into it: each field has taken its
/// own data in, and the unmodeled members are those of the data.
pub proof fn merged_fields_are_read(fields: Seq<(Seq<char>, Option<JsonV>)>, ns: ObjV, known: Seq<Seq<char>>)
    requires
        names_differ(fields),
        forall|i: int| 0 <= i < fields.len() ==> known.contains((#[trigger] fields[i]).0),
        clean(ns),
        nests(ns, known),
    ensures
        unknown(merged(put_all(fields, fields.len()), ns), known) == unknown(ns, known),
        forall|i: int|
            0 <= i < fields.len() ==> obj_get(merged(put_all(fields, fields.len()), ns), (#[trigger] fields[i]).0)
                == merged_member(fields[i].1, ns, fields[i].0),
{
    let t = put_all(fields, fields.len());
    put_fields_are_known(fields, fields.len(), known);
    put_fields_are_distinct(fields, fields.len());
    merge_keeps_unknown(t, ns, known, ns.len());
    assert forall|i: int| 0 <= i < fields.len() implies obj_get(merged(t, ns), (#[trigger] fields[i]).0)
        == merged_member(fields[i].1, ns, fields[i].0) by {
        put_fields_are_read(fields, fields.len(), i);
        assert(known.contains(fields[i].0));
        member_nests(ns, known, fields[i].0);
        deep_data_is_read(t, ns, fields[i].0);
    }
}

/// An unmodeled member is read from the data that was merged in.
pub proof fn unmodeled_member_is_read(t: ObjV, ns: ObjV, k: Seq<char>)
    requires
        obj_wf(t),
        clean(ns),
        absent(t, k),
    ensures
        obj_get(merged(t, ns), k) == obj_get(ns, k),
{
    broadcast use obj_index_props;
    absent_is_not_read(t, k, JsonV::Null);
    match obj_get(ns, k) {
        None => {
            unread_is_absent(ns, k);
            merge_keeps_other_members(t, ns, ns.len(), k);
        },
        Some(v) => {
            reveal(obj_get);
            let i = obj_index(ns, k);
            assert(ns[i] == (k, v));
            null_free_member(ns, ns.len(), i);
            merge_applies_each_member(t, ns, ns.len(), i);
            if let JsonV::Object(m) = v {
                let none = Seq::<(Seq<char>, JsonV)>::empty();
                null_free_object(ns, ns.len(), i);
                new_members_are_appended(none, m, m.len());
                assert(none + m.take(m.len() as int) =~= m);
                assert(obj_part(None::<JsonV>) == none);
            }
        },
    }
}

proof fn merge_front(t: ObjV, a: ObjV, b: ObjV, n: nat)
    requires
        n <= a.len(),
    ensures
        merge_members(t, a + b, n) == merge_members(t, a, n),
    decreases n,
{
    if n > 0 {
        merge_front(t, a, b, (n - 1) as nat);
        assert((a + b)[n - 1] == a[n - 1]);
    }
}

/// Two stretches of data are merged one after the other.
pub proof fn merges_in_turn(t: ObjV, a: ObjV, b: ObjV, n: nat)
    requires
        n <= b.len(),
    ensures
        merge_members(t, a + b, a.len() + n) == merge_members(merge_members(t, a, a.len()), b, n),
    decreases n,
{
    if n == 0 {
        merge_front(t, a, b, a.len());
    } else {
        merges_in_turn(t, a, b, (n - 1) as nat);
        assert((a + b)[a.len() + n - 1] == b[n - 1]);
    }
}

/// No member of clean data is `null`.
pub proof fn member_is_not_null(o: ObjV, i: int)
    requires
        clean(o),
        0 <= i < o.len(),
    ensures
        !(o[i].1 is Null),
{
    null_free_member(o, o.len(), i);
}

/// A member behind others is read unless one before it has its name.
pub proof fn pushed_member_is_read(o: ObjV, k: Seq<char>, key: Seq<char>, v: JsonV)
    ensures
        obj_get(o.push((key, v)), k) == (if obj_get(o, k) is Some {
            obj_get(o, k)
        } else if key == k {
            Some(v)
        } else {
            None
        }),
{
    let one = seq![(key, v)];
    let known = seq![k];
    assert(o.push((key, v)) =~= o + one);
    assert(known[0] == k);
    if obj_get(o, k) is None {
        unread_is_absent(o, k);
        members_behind_are_read(o, one, k);
        if key == k {
            first_named_is_read(one, k, 0);
        } else {
            absent_is_not_read(one, k, JsonV::Null);
        }
    } else if key != k {
        assert(avoids(one, known));
        front_members_are_read(o, one, known, k);
    } else {
        broadcast use obj_index_props;
        reveal(obj_get);
        let i = obj_index(o, k);
        let all = o.push((key, v));
        assert(all[i] == o[i]);
        first_named_is_read(all, k, i);
    }
}

} // verus!
