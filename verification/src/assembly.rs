//! Laws: an object of fields with data merged in, member by member. Fields keep
//! their places and take in what the data has for them; data for other names
//! comes behind, in order.

use vstd::prelude::*;
use crate::decode::unknown;
use crate::json::{obj_get, obj_index, obj_index_props, obj_set, obj_wf, JsonV, ObjV};
use crate::json_laws::{merge_applies_each_member, merge_keeps_other_members};
use crate::merge::{merge_members, merged, obj_part};
use crate::namespaces::{absent, absent_is_not_read, avoids, clean, field_is_replaced, first_named_is_read, front_members_are_read, members_behind_are_read, modeled_members_are_known, names_differ, put_all, put_fields_are_distinct, put_fields_are_known, put_fields_are_named, put_fields_are_read, unmodeled_members_add_up, unmodeled_members_are_kept, unread_is_absent, within};
use crate::sweep::{clean_member_by_member, clean_value, known_are_apart, swept, swept_data_avoids, swept_data_is_clean, swept_data_stays};

verus! {

/// Fields of an object: a name, and a value where there is one.
pub type FieldsV = Seq<(Seq<char>, Option<JsonV>)>;

/// No member is `null`.
pub open spec fn no_nulls(o: ObjV) -> bool {
    forall|i: int| 0 <= i < o.len() ==> !((#[trigger] o[i]).1 is Null)
}

/// What a member becomes when data for its name is merged in.
pub open spec fn combined(f: Option<JsonV>, n: Option<JsonV>) -> Option<JsonV> {
    match n {
        None => f,
        Some(JsonV::Object(q)) => Some(JsonV::Object(merged(obj_part(f), q))),
        Some(v) => Some(v),
    }
}

/// Fields that have a value, with the data for their names taken in.
pub open spec fn front(l: FieldsV, ns: ObjV) -> FieldsV {
    Seq::new(
        l.len(),
        |i: int| (l[i].0, if l[i].1 is Some { combined(l[i].1, obj_get(ns, l[i].0)) } else { None }),
    )
}

/// The first `n` members of the data that `t` has no member for.
pub open spec fn back(t: ObjV, ns: ObjV, n: nat) -> ObjV
    decreases n,
{
    if n == 0 || n > ns.len() {
        Seq::empty()
    } else if obj_get(t, ns[n - 1].0) is None {
        back(t, ns, (n - 1) as nat).push((ns[n - 1].0, combined(None, Some(ns[n - 1].1))->0))
    } else {
        back(t, ns, (n - 1) as nat)
    }
}

proof fn back_is_named(t: ObjV, ns: ObjV, n: nat)
    requires
        n <= ns.len(),
    ensures
        forall|i: int|
            0 <= i < back(t, ns, n).len() ==> obj_get(t, (#[trigger] back(t, ns, n)[i]).0) is None && exists|j: int|
                0 <= j < n && (#[trigger] ns[j]).0 == back(t, ns, n)[i].0,
    decreases n,
{
    if n > 0 {
        back_is_named(t, ns, (n - 1) as nat);
        let prev = back(t, ns, (n - 1) as nat);
        let b = back(t, ns, n);
        assert forall|i: int| 0 <= i < b.len() implies obj_get(t, (#[trigger] b[i]).0) is None && exists|j: int|
            0 <= j < n && (#[trigger] ns[j]).0 == b[i].0 by {
            if i < prev.len() {
                assert(b[i] == prev[i]);
                let j = choose|j: int| 0 <= j < n - 1 && (#[trigger] ns[j]).0 == prev[i].0;
                assert(ns[j].0 == b[i].0);
            } else {
                assert(ns[n - 1].0 == b[i].0);
            }
        }
    }
}

pub proof fn change_in_front(t: ObjV, b: ObjV, k: Seq<char>, v: JsonV)
    requires
        obj_get(t, k) is Some,
    ensures
        obj_set(t + b, k, v) == obj_set(t, k, v) + b,
        obj_get(t + b, k) == obj_get(t, k),
{
    broadcast use obj_index_props;
    reveal(obj_get);
    reveal(obj_set);
    let o = t + b;
    let i = obj_index(t, k);
    let j = obj_index(o, k);
    assert(o[i] == t[i]);
    assert(j == i) by {
        if j < i {
            assert(o[j] == t[j]);
        }
    }
    assert(o.update(i, (k, v)) =~= t.update(i, (k, v)) + b);
}

proof fn assembled_upto(l: FieldsV, ns: ObjV, n: nat)
    requires
        names_differ(l),
        obj_wf(ns),
        no_nulls(ns),
        n <= ns.len(),
    ensures
        merge_members(put_all(l, l.len()), ns, n) == put_all(front(l, ns.take(n as int)), l.len()) + back(
            put_all(l, l.len()),
            ns,
            n,
        ),
    decreases n,
{
    broadcast use obj_index_props;
    let t = put_all(l, l.len());
    let none = Seq::<(Seq<char>, JsonV)>::empty();
    if n == 0 {
        assert(ns.take(0) =~= none);
        assert forall|i: int| 0 <= i < l.len() implies front(l, none)[i] == #[trigger] l[i] by {
            absent_is_not_read(none, l[i].0, JsonV::Null);
        }
        assert(front(l, none) =~= l);
        assert(t + none =~= t);
    } else {
        let m = (n - 1) as nat;
        assembled_upto(l, ns, m);
        let f = front(l, ns.take(m as int));
        let g = front(l, ns.take(n as int));
        let b = back(t, ns, m);
        let p = put_all(f, l.len());
        let prev = p + b;
        let k = ns[n - 1].0;
        let v = ns[n - 1].1;
        let older = ns.take(m as int);
        let newer = ns.take(n as int);
        assert(newer =~= older.push(ns[n - 1]));
        assert(absent(older, k)) by {
            assert forall|i: int| 0 <= i < older.len() implies (#[trigger] older[i]).0 != k by {
                assert(ns[i].0 != ns[n - 1].0);
            }
        }
        absent_is_not_read(older, k, v);
        first_named_is_read(newer, k, m as int);
        assert forall|x: Seq<char>| x != k implies obj_get(newer, x) == #[trigger] obj_get(older, x) by {
            reveal(obj_get);
            let i = obj_index(older, x);
            let j = obj_index(newer, x);
            if j < older.len() {
                assert(newer[j] == older[j]);
            }
            if i < older.len() {
                assert(newer[i] == older[i]);
            }
        }
        assert(names_differ(f));
        back_is_named(t, ns, m);
        assert(!(v is Null));
        let merged_value = match v {
            JsonV::Object(q) => JsonV::Object(merge_members(obj_part(obj_get(prev, k)), q, q.len())),
            v => v,
        };
        assert(merge_members(t, ns, n) == obj_set(prev, k, merged_value));
        if obj_get(t, k) is Some {
            assert(!absent(t, k)) by {
                if absent(t, k) {
                    absent_is_not_read(t, k, v);
                }
            }
            assert(exists|i: int| 0 <= i < l.len() && (#[trigger] l[i]).0 == k) by {
                if !(exists|i: int| 0 <= i < l.len() && (#[trigger] l[i]).0 == k) {
                    put_fields_are_named(l, l.len(), k);
                }
            }
            let i = choose|i: int| 0 <= i < l.len() && (#[trigger] l[i]).0 == k;
            put_fields_are_read(l, l.len(), i);
            put_fields_are_read(f, l.len(), i);
            assert(f[i] == l[i]);
            change_in_front(p, b, k, merged_value);
            field_is_replaced(f, l.len(), i, merged_value);
            assert(combined(l[i].1, Some(v)) == Some(merged_value));
            assert(g =~= f.update(i, (f[i].0, Some(merged_value)))) by {
                assert forall|x: int| 0 <= x < l.len() implies g[x] == (#[trigger] f.update(
                    i,
                    (f[i].0, Some(merged_value)),
                )[x]) by {
                    if x != i {
                        assert(l[x].0 != k) by {
                            if x < i {
                                assert(l[x].0 != l[i].0);
                            } else {
                                assert(l[i].0 != l[x].0);
                            }
                        }
                        assert(obj_get(newer, l[x].0) == obj_get(older, l[x].0));
                    }
                }
            }
        } else {
            assert(absent(p, k)) by {
                assert forall|i: int| 0 <= i < l.len() && f[i].1 is Some implies (#[trigger] f[i]).0 != k by {
                    if f[i].0 == k {
                        put_fields_are_read(l, l.len(), i);
                    }
                }
                put_fields_without(f, l.len(), k);
            }
            assert(absent(b, k)) by {
                assert forall|i: int| 0 <= i < b.len() implies (#[trigger] b[i]).0 != k by {
                    let j = choose|j: int| 0 <= j < m && (#[trigger] ns[j]).0 == b[i].0;
                    assert(ns[j].0 != ns[n - 1].0);
                }
            }
            assert(absent(prev, k)) by {
                assert forall|i: int| 0 <= i < prev.len() implies (#[trigger] prev[i]).0 != k by {
                    if i < p.len() {
                        assert(prev[i] == p[i]);
                    } else {
                        assert(prev[i] == b[i - p.len()]);
                    }
                }
            }
            absent_is_not_read(prev, k, merged_value);
            assert(combined(None, Some(v)) == Some(merged_value));
            assert(prev.push((k, merged_value)) =~= p + b.push((k, merged_value)));
            assert(g =~= f) by {
                assert forall|x: int| 0 <= x < l.len() implies (#[trigger] g[x]) == f[x] by {
                    if l[x].1 is Some {
                        put_fields_are_read(l, l.len(), x);
                        assert(l[x].0 != k);
                        assert(obj_get(newer, l[x].0) == obj_get(older, l[x].0));
                    }
                }
            }
        }
    }
}

/// A name that no field with a value has is absent.
pub proof fn put_fields_without(l: FieldsV, n: nat, k: Seq<char>)
    requires
        n <= l.len(),
        forall|i: int| 0 <= i < n && l[i].1 is Some ==> (#[trigger] l[i]).0 != k,
    ensures
        absent(put_all(l, n), k),
    decreases n,
{
    broadcast use obj_index_props;
    if n > 0 {
        put_fields_without(l, (n - 1) as nat, k);
        reveal(obj_set);
        let prev = put_all(l, (n - 1) as nat);
        let o = put_all(l, n);
        if let Some(v) = l[n - 1].1 {
            assert forall|j: int| 0 <= j < o.len() implies (#[trigger] o[j]).0 != k by {
                if j < prev.len() && j != obj_index(prev, l[n - 1].0) {
                    assert(o[j] == prev[j]);
                }
            }
        }
    }
}

/// An object of fields with data merged in: the fields in their places, then
/// the data for other names.
pub proof fn assembled(l: FieldsV, ns: ObjV)
    requires
        names_differ(l),
        obj_wf(ns),
        no_nulls(ns),
    ensures
        merged(put_all(l, l.len()), ns) == put_all(front(l, ns), l.len()) + back(put_all(l, l.len()), ns, ns.len()),
{
    assembled_upto(l, ns, ns.len());
    assert(ns.take(ns.len() as int) =~= ns);
}

/// A member of merged data is read as the field and the data combined.
pub proof fn combined_is_read(t: ObjV, ns: ObjV, k: Seq<char>)
    requires
        obj_wf(t),
        obj_wf(ns),
        no_nulls(ns),
    ensures
        obj_get(merged(t, ns), k) == combined(obj_get(t, k), obj_get(ns, k)),
{
    broadcast use obj_index_props;
    reveal(obj_get);
    let i = obj_index(ns, k);
    if i < ns.len() {
        assert(ns[i].0 == k);
        assert(!(ns[i].1 is Null));
        merge_applies_each_member(t, ns, ns.len(), i);
    } else {
        merge_keeps_other_members(t, ns, ns.len(), k);
    }
}

proof fn back_in_turn(t: ObjV, a: ObjV, b: ObjV, n: nat)
    requires
        n <= b.len(),
    ensures
        back(t, a + b, a.len() + n) == back(t, a, a.len()) + back(t, b, n),
    decreases n,
{
    if n == 0 {
        back_front(t, a, b, a.len());
        assert(back(t, a, a.len()) + Seq::<(Seq<char>, JsonV)>::empty() =~= back(t, a, a.len()));
    } else {
        back_in_turn(t, a, b, (n - 1) as nat);
        assert((a + b)[a.len() + n - 1] == b[n - 1]);
        assert(back(t, a + b, a.len() + n) =~= back(t, a, a.len()) + back(t, b, n));
    }
}

proof fn back_front(t: ObjV, a: ObjV, b: ObjV, n: nat)
    requires
        n <= a.len(),
    ensures
        back(t, a + b, n) == back(t, a, n),
    decreases n,
{
    if n > 0 {
        back_front(t, a, b, (n - 1) as nat);
        assert((a + b)[n - 1] == a[n - 1]);
    }
}

proof fn back_is_swept(t: ObjV, e: ObjV, n: nat)
    requires
        n <= e.len(),
        obj_wf(e),
        no_nulls(e),
        forall|i: int| 0 <= i < e.len() ==> absent(t, (#[trigger] e[i]).0),
    ensures
        back(t, e, n) == merge_members(Seq::empty(), e, n),
    decreases n,
{
    let none = Seq::<(Seq<char>, JsonV)>::empty();
    if n > 0 {
        back_is_swept(t, e, (n - 1) as nat);
        let prev = merge_members(none, e, (n - 1) as nat);
        let k = e[n - 1].0;
        let v = e[n - 1].1;
        assert(absent(t, e[n - 1].0));
        absent_is_not_read(t, k, v);
        assert forall|i: int| 0 <= i < n - 1 implies (#[trigger] e[i]).0 != k by {
            assert(e[i].0 != e[n - 1].0);
        }
        merge_keeps_other_members(none, e, (n - 1) as nat, k);
        absent_is_not_read(none, k, v);
        unread_is_absent(prev, k);
        assert(!(v is Null));
        let x = combined(None, Some(v))->0;
        absent_is_not_read(prev, k, x);
    }
}

/// Data fields for names that have no member, as they come behind.
pub open spec fn behind(t: ObjV, nl: FieldsV) -> FieldsV {
    Seq::new(
        nl.len(),
        |i: int| (nl[i].0, if obj_get(t, nl[i].0) is None { combined(None, nl[i].1) } else { None }),
    )
}

proof fn back_of_fields(t: ObjV, nl: FieldsV, n: nat)
    requires
        n <= nl.len(),
        names_differ(nl),
    ensures
        back(t, put_all(nl, n), put_all(nl, n).len()) == put_all(behind(t, nl), n),
    decreases n,
{
    if n > 0 {
        let m = (n - 1) as nat;
        back_of_fields(t, nl, m);
        let prev = put_all(nl, m);
        let k = nl[n - 1].0;
        put_fields_are_named(nl, m, k);
        let x = behind(t, nl);
        assert forall|i: int| 0 <= i < m implies (#[trigger] x[i]).0 != k by {
            assert(nl[i].0 != nl[n - 1].0);
        }
        put_fields_are_named(x, m, k);
        if let Some(v) = nl[n - 1].1 {
            absent_is_not_read(prev, k, v);
            let one = seq![(k, v)];
            assert(prev.push((k, v)) =~= prev + one);
            back_in_turn(t, prev, one, 1);
            assert(back(t, one, 0) == Seq::<(Seq<char>, JsonV)>::empty());
            let b = put_all(x, m);
            if obj_get(t, k) is None {
                let w = combined(None, Some(v))->0;
                absent_is_not_read(b, k, w);
                assert(back(t, one, 1) =~= seq![(k, w)]);
                assert(b + seq![(k, w)] =~= b.push((k, w)));
            } else {
                assert(back(t, one, 1) =~= Seq::<(Seq<char>, JsonV)>::empty());
                assert(b + Seq::<(Seq<char>, JsonV)>::empty() =~= b);
            }
        }
    }
}

/// No field is `null`.
pub open spec fn no_null_fields(nl: FieldsV) -> bool {
    forall|i: int| 0 <= i < nl.len() ==> (#[trigger] nl[i]).1 != Some(JsonV::Null)
}

pub proof fn fields_have_no_nulls(nl: FieldsV, n: nat)
    requires
        n <= nl.len(),
        no_null_fields(nl),
    ensures
        no_nulls(put_all(nl, n)),
    decreases n,
{
    broadcast use obj_index_props;
    if n > 0 {
        fields_have_no_nulls(nl, (n - 1) as nat);
        reveal(obj_set);
        let prev = put_all(nl, (n - 1) as nat);
        let o = put_all(nl, n);
        if let Some(v) = nl[n - 1].1 {
            assert(nl[n - 1].1 != Some(JsonV::Null));
            assert forall|j: int| 0 <= j < o.len() implies !((#[trigger] o[j]).1 is Null) by {
                if j != obj_index(prev, nl[n - 1].0) {
                    assert(o[j] == prev[j]);
                }
            }
        }
    }
}

/// The body of fields `l` with data fields `nl` and unmodeled members `e`.
pub open spec fn body_of(l: FieldsV, nl: FieldsV, e: ObjV) -> ObjV {
    merged(put_all(l, l.len()), put_all(nl, nl.len()) + e)
}

/// Fields, data fields and unmodeled members of a body: names are told apart,
/// and nothing is `null`.
pub open spec fn sound(l: FieldsV, nl: FieldsV, e: ObjV, known: Seq<Seq<char>>) -> bool {
    &&& names_differ(l)
    &&& names_differ(nl)
    &&& forall|i: int| 0 <= i < l.len() ==> known.contains((#[trigger] l[i]).0)
    &&& forall|i: int| 0 <= i < nl.len() ==> known.contains((#[trigger] nl[i]).0)
    &&& no_null_fields(nl)
    &&& obj_wf(e)
    &&& no_nulls(e)
    &&& avoids(e, known)
}

/// The data of a body names each member once, and has no `null` member.
pub proof fn data_is_sound(l: FieldsV, nl: FieldsV, e: ObjV, known: Seq<Seq<char>>)
    requires
        sound(l, nl, e, known),
    ensures
        obj_wf(put_all(nl, nl.len()) + e),
        no_nulls(put_all(nl, nl.len()) + e),
        within(put_all(nl, nl.len()), known),
        within(put_all(l, l.len()), known),
{
    put_fields_are_known(nl, nl.len(), known);
    put_fields_are_known(l, l.len(), known);
    put_fields_are_distinct(nl, nl.len());
    fields_have_no_nulls(nl, nl.len());
    let p = put_all(nl, nl.len());
    let g = p + e;
    known_are_apart(p, e, known);
    assert forall|i: int| 0 <= i < g.len() implies !((#[trigger] g[i]).1 is Null) by {
        if i < p.len() {
            assert(g[i] == p[i]);
        } else {
            assert(g[i] == e[i - p.len()]);
        }
    }
    assert forall|i: int, j: int| 0 <= i < j < g.len() implies #[trigger] g[i].0 != #[trigger] g[j].0 by {
        if j < p.len() {
            assert(g[i] == p[i] && g[j] == p[j]);
        } else {
            assert(g[j] == e[j - p.len()]);
            if i < p.len() {
                assert(absent(p, e[j - p.len()].0));
                assert(g[i] == p[i]);
            } else {
                assert(g[i] == e[i - p.len()]);
            }
        }
    }
}

/// The value of a data field.
pub open spec fn field_of(nl: FieldsV, k: Seq<char>) -> Option<JsonV> {
    obj_get(put_all(nl, nl.len()), k)
}

/// A body, member by member: fields in their places with their data, then data
/// fields without a field, then unmodeled members, swept.
pub proof fn body_is_assembled(l: FieldsV, nl: FieldsV, e: ObjV, known: Seq<Seq<char>>)
    requires
        sound(l, nl, e, known),
    ensures
        ({
            let t = put_all(l, l.len());
            body_of(l, nl, e) == put_all(front(l, put_all(nl, nl.len())), l.len()) + put_all(
                behind(t, nl),
                nl.len(),
            ) + swept(e)
        }),
        unknown(body_of(l, nl, e), known) == swept(e),
        forall|k: Seq<char>|
            known.contains(k) ==> #[trigger] obj_get(body_of(l, nl, e), k) == combined(
                obj_get(put_all(l, l.len()), k),
                field_of(nl, k),
            ),
{
    data_is_sound(l, nl, e, known);
    let t = put_all(l, l.len());
    let p = put_all(nl, nl.len());
    let ns = p + e;
    assembled(l, ns);
    put_fields_are_distinct(l, l.len());
    known_are_apart(t, e, known);
    back_in_turn(t, p, e, e.len());
    back_of_fields(t, nl, nl.len());
    back_is_swept(t, e, e.len());
    assert forall|k: Seq<char>| known.contains(k) implies #[trigger] obj_get(ns, k) == obj_get(p, k) by {
        front_members_are_read(p, e, known, k);
    }
    let f = front(l, ns);
    let g = front(l, p);
    assert forall|i: int| 0 <= i < l.len() implies (#[trigger] f[i]) == g[i] by {
        assert(known.contains(l[i].0));
    }
    assert(f =~= g);
    let b = put_all(behind(t, nl), nl.len());
    let head = put_all(g, l.len());
    assert(head + (b + swept(e)) =~= head + b + swept(e));
    assert forall|i: int| 0 <= i < g.len() implies known.contains((#[trigger] g[i]).0) by {
        assert(known.contains(l[i].0));
    }
    put_fields_are_known(g, l.len(), known);
    let x = behind(t, nl);
    assert forall|i: int| 0 <= i < x.len() implies known.contains((#[trigger] x[i]).0) by {
        assert(known.contains(nl[i].0));
    }
    put_fields_are_known(x, nl.len(), known);
    swept_data_avoids(e, known);
    let both = head + b;
    assert(within(both, known)) by {
        assert forall|i: int| 0 <= i < both.len() implies known.contains((#[trigger] both[i]).0) by {
            if i < head.len() {
                assert(both[i] == head[i]);
            } else {
                assert(both[i] == b[i - head.len()]);
            }
        }
    }
    unmodeled_members_are_kept(both, swept(e), known);
    assert forall|k: Seq<char>| known.contains(k) implies #[trigger] obj_get(body_of(l, nl, e), k) == combined(
        obj_get(t, k),
        field_of(nl, k),
    ) by {
        combined_is_read(t, ns, k);
        assert(obj_get(ns, k) == obj_get(p, k));
    }
}

/// The value of a field.
pub proof fn field_is_read(nl: FieldsV, i: int)
    requires
        names_differ(nl),
        0 <= i < nl.len(),
    ensures
        field_of(nl, nl[i].0) == nl[i].1,
{
    put_fields_are_read(nl, nl.len(), i);
}

/// A name that is no field has no value.
pub proof fn no_field_is_read(nl: FieldsV, k: Seq<char>)
    requires
        forall|i: int| 0 <= i < nl.len() ==> (#[trigger] nl[i]).0 != k,
    ensures
        field_of(nl, k) is None,
{
    put_fields_are_named(nl, nl.len(), k);
    absent_is_not_read(put_all(nl, nl.len()), k, JsonV::Null);
}

/// Two bodies are the same when their fields have values at the same names,
/// and fields and data combine to the same.
pub proof fn bodies_agree(
    l: FieldsV,
    nl: FieldsV,
    e: ObjV,
    l2: FieldsV,
    nl2: FieldsV,
    e2: ObjV,
    known: Seq<Seq<char>>,
)
    requires
        sound(l, nl, e, known),
        sound(l2, nl2, e2, known),
        l.len() == l2.len(),
        nl.len() == nl2.len(),
        forall|i: int|
            0 <= i < l.len() ==> (#[trigger] l[i]).0 == l2[i].0 && (l[i].1 is Some) == (l2[i].1 is Some) && combined(
                l[i].1,
                field_of(nl, l[i].0),
            ) == combined(l2[i].1, field_of(nl2, l[i].0)),
        forall|i: int|
            0 <= i < nl.len() ==> (#[trigger] nl[i]).0 == nl2[i].0 && combined(
                obj_get(put_all(l, l.len()), nl[i].0),
                nl[i].1,
            ) == combined(obj_get(put_all(l2, l2.len()), nl[i].0), nl2[i].1),
        swept(e) == swept(e2),
    ensures
        body_of(l, nl, e) == body_of(l2, nl2, e2),
{
    body_is_assembled(l, nl, e, known);
    body_is_assembled(l2, nl2, e2, known);
    let t = put_all(l, l.len());
    let t2 = put_all(l2, l2.len());
    let f = front(l, put_all(nl, nl.len()));
    let f2 = front(l2, put_all(nl2, nl2.len()));
    assert forall|i: int| 0 <= i < l.len() implies (#[trigger] f[i]) == f2[i] by {
        assert(l[i].0 == l2[i].0);
    }
    assert(f =~= f2);
    let b = behind(t, nl);
    let b2 = behind(t2, nl2);
    assert forall|i: int| 0 <= i < nl.len() implies (#[trigger] b[i]) == b2[i] by {
        assert(nl[i].0 == nl2[i].0);
        let k = nl[i].0;
        assert(obj_get(t, k) is Some == obj_get(t2, k) is Some) by {
            presence(l, l2, k);
        }
    }
    assert(b =~= b2);
}

proof fn presence(l: FieldsV, l2: FieldsV, k: Seq<char>)
    requires
        names_differ(l),
        names_differ(l2),
        l.len() == l2.len(),
        forall|i: int| 0 <= i < l.len() ==> (#[trigger] l[i]).0 == l2[i].0 && (l[i].1 is Some) == (l2[i].1 is Some),
    ensures
        obj_get(put_all(l, l.len()), k) is Some == obj_get(put_all(l2, l2.len()), k) is Some,
{
    if exists|i: int| 0 <= i < l.len() && (#[trigger] l[i]).0 == k {
        let i = choose|i: int| 0 <= i < l.len() && (#[trigger] l[i]).0 == k;
        put_fields_are_read(l, l.len(), i);
        assert(l2[i].0 == k);
        put_fields_are_read(l2, l2.len(), i);
    } else {
        put_fields_are_named(l, l.len(), k);
        assert forall|i: int| 0 <= i < l2.len() implies (#[trigger] l2[i]).0 != k by {
            assert(l[i].0 == l2[i].0);
        }
        put_fields_are_named(l2, l2.len(), k);
        absent_is_not_read(put_all(l, l.len()), k, JsonV::Null);
        absent_is_not_read(put_all(l2, l2.len()), k, JsonV::Null);
    }
}

/// Data that comes behind is clean, and has the names of the data.
pub proof fn back_is_clean(t: ObjV, ns: ObjV, n: nat)
    requires
        n <= ns.len(),
        obj_wf(ns),
        no_nulls(ns),
    ensures
        clean(back(t, ns, n)),
        forall|k: Seq<char>| absent(ns, k) ==> #[trigger] absent(back(t, ns, n), k),
        forall|k: Seq<char>| obj_get(t, k) is Some ==> #[trigger] absent(back(t, ns, n), k),
    decreases n,
{
    let b = back(t, ns, n);
    back_is_named(t, ns, n);
    assert forall|k: Seq<char>| absent(ns, k) implies #[trigger] absent(b, k) by {
        assert forall|i: int| 0 <= i < b.len() implies (#[trigger] b[i]).0 != k by {
            let j = choose|j: int| 0 <= j < n && (#[trigger] ns[j]).0 == b[i].0;
            assert(ns[j].0 != k);
        }
    }
    assert forall|k: Seq<char>| obj_get(t, k) is Some implies #[trigger] absent(b, k) by {
        assert forall|i: int| 0 <= i < b.len() implies (#[trigger] b[i]).0 != k by {}
    }
    if n == 0 {
        clean_member_by_member(b);
    } else {
        back_is_clean(t, ns, (n - 1) as nat);
        let prev = back(t, ns, (n - 1) as nat);
        clean_member_by_member(prev);
        back_is_named(t, ns, (n - 1) as nat);
        let v = ns[n - 1].1;
        assert(!(v is Null));
        if let JsonV::Object(q) = v {
            swept_data_is_clean(q);
        }
        assert(clean_value(combined(None, Some(v))->0));
        assert forall|i: int, j: int| 0 <= i < j < b.len() implies #[trigger] b[i].0 != #[trigger] b[j].0 by {
            if j < prev.len() {
                assert(b[i] == prev[i] && b[j] == prev[j]);
            } else {
                assert(b[i] == prev[i]);
                let x = choose|x: int| 0 <= x < n - 1 && (#[trigger] ns[x]).0 == prev[i].0;
                assert(ns[x].0 != ns[n - 1].0);
            }
        }
        assert forall|i: int| 0 <= i < b.len() implies clean_value((#[trigger] b[i]).1) by {
            if i < prev.len() {
                assert(b[i] == prev[i]);
            }
        }
        clean_member_by_member(b);
    }
}

/// Data fields as they are read again: swept.
pub open spec fn swept_fields(nl: FieldsV) -> FieldsV {
    Seq::new(nl.len(), |i: int| (nl[i].0, combined(None, nl[i].1)))
}

/// Data meets no object in its place.
pub open spec fn meets_no_object(l: FieldsV, nl: FieldsV) -> bool {
    forall|i: int|
        0 <= i < nl.len() && (#[trigger] nl[i]).1 is Some ==> match obj_get(put_all(l, l.len()), nl[i].0) {
            Some(JsonV::Object(_)) => false,
            _ => true,
        }
}

/// A body whose data meets no object is read as its fields and its data,
/// swept, and these make the same body.
pub proof fn body_settles(l: FieldsV, nl: FieldsV, e: ObjV, known: Seq<Seq<char>>)
    requires
        sound(l, nl, e, known),
        meets_no_object(l, nl),
    ensures
        ({
            let body = body_of(l, nl, e);
            &&& sound(l, swept_fields(nl), swept(e), known)
            &&& body_of(l, swept_fields(nl), swept(e)) == body
            &&& unknown(body, known) == swept(e)
            &&& forall|k: Seq<char>|
                known.contains(k) ==> #[trigger] obj_get(body, k) == match field_of(nl, k) {
                    Some(v) => combined(None, Some(v)),
                    None => obj_get(put_all(l, l.len()), k),
                }
        }),
{
    let nl2 = swept_fields(nl);
    let e2 = swept(e);
    let t = put_all(l, l.len());
    let none = Seq::<(Seq<char>, JsonV)>::empty();
    assert(obj_part(None) == none);
    swept_data_is_clean(e);
    swept_data_avoids(e, known);
    clean_member_by_member(e2);
    assert(no_nulls(e2)) by {
        assert forall|i: int| 0 <= i < e2.len() implies !((#[trigger] e2[i]).1 is Null) by {
            assert(clean_value(e2[i].1));
        }
    }
    assert forall|i: int| 0 <= i < nl2.len() implies known.contains((#[trigger] nl2[i]).0) && nl2[i].1 != Some(
        JsonV::Null,
    ) by {
        assert(known.contains(nl[i].0));
        assert(nl[i].1 != Some(JsonV::Null));
    }
    assert(names_differ(nl2)) by {
        assert forall|i: int, j: int| 0 <= i < j < nl2.len() implies (#[trigger] nl2[i]).0 != (#[trigger] nl2[j]).0 by {
            assert(nl[i].0 != nl[j].0);
        }
    }
    swept_data_stays(e);
    body_is_assembled(l, nl, e, known);
    assert forall|i: int| 0 <= i < nl.len() implies (#[trigger] nl[i]).0 == nl2[i].0 && combined(
        obj_get(t, nl[i].0),
        nl[i].1,
    ) == combined(obj_get(t, nl[i].0), nl2[i].1) by {
        if let Some(JsonV::Object(q)) = nl[i].1 {
            swept_data_stays(q);
        }
    }
    assert forall|i: int| 0 <= i < l.len() implies combined((#[trigger] l[i]).1, field_of(nl, l[i].0)) == combined(
        l[i].1,
        field_of(nl2, l[i].0),
    ) by {
        let k = l[i].0;
        put_fields_are_read(l, l.len(), i);
        if exists|j: int| 0 <= j < nl.len() && (#[trigger] nl[j]).0 == k {
            let j = choose|j: int| 0 <= j < nl.len() && (#[trigger] nl[j]).0 == k;
            field_is_read(nl, j);
            assert(nl2[j].0 == k);
            field_is_read(nl2, j);
        } else {
            no_field_is_read(nl, k);
            assert forall|j: int| 0 <= j < nl2.len() implies (#[trigger] nl2[j]).0 != k by {
                assert(nl[j].0 != k);
            }
            no_field_is_read(nl2, k);
        }
    }
    bodies_agree(l, nl, e, l, nl2, e2, known);
    assert forall|k: Seq<char>| known.contains(k) implies #[trigger] obj_get(body_of(l, nl, e), k) == match field_of(
        nl,
        k,
    ) {
        Some(v) => combined(None, Some(v)),
        None => obj_get(t, k),
    } by {
        if exists|j: int| 0 <= j < nl.len() && (#[trigger] nl[j]).0 == k {
            let j = choose|j: int| 0 <= j < nl.len() && (#[trigger] nl[j]).0 == k;
            field_is_read(nl, j);
        } else {
            no_field_is_read(nl, k);
        }
    }
}

/// The body of fields `l` with unmodeled members `e`, then data fields `nl`.
pub open spec fn tail_body_of(l: FieldsV, e: ObjV, nl: FieldsV) -> ObjV {
    merged(put_all(l, l.len()), e + put_all(nl, nl.len()))
}

proof fn tail_data_is_sound(l: FieldsV, nl: FieldsV, e: ObjV, known: Seq<Seq<char>>)
    requires
        sound(l, nl, e, known),
    ensures
        obj_wf(e + put_all(nl, nl.len())),
        no_nulls(e + put_all(nl, nl.len())),
        within(put_all(nl, nl.len()), known),
        within(put_all(l, l.len()), known),
{
    data_is_sound(l, nl, e, known);
    let p = put_all(nl, nl.len());
    let g = e + p;
    let h = p + e;
    assert forall|i: int| 0 <= i < g.len() implies !((#[trigger] g[i]).1 is Null) by {
        if i < e.len() {
            assert(g[i] == h[p.len() + i]);
        } else {
            assert(g[i] == h[i - e.len()]);
        }
    }
    assert forall|i: int, j: int| 0 <= i < j < g.len() implies #[trigger] g[i].0 != #[trigger] g[j].0 by {
        let x = if i < e.len() { p.len() + i } else { i - e.len() };
        let y = if j < e.len() { p.len() + j } else { j - e.len() };
        assert(g[i] == h[x] && g[j] == h[y]);
        if x < y {
            assert(h[x].0 != h[y].0);
        } else {
            assert(h[y].0 != h[x].0);
        }
    }
}

/// A body whose data fields come last, member by member.
pub proof fn tail_body_is_assembled(l: FieldsV, nl: FieldsV, e: ObjV, known: Seq<Seq<char>>)
    requires
        sound(l, nl, e, known),
    ensures
        ({
            let t = put_all(l, l.len());
            tail_body_of(l, e, nl) == put_all(front(l, put_all(nl, nl.len())), l.len()) + swept(e) + put_all(
                behind(t, nl),
                nl.len(),
            )
        }),
        unknown(tail_body_of(l, e, nl), known) == swept(e),
        forall|k: Seq<char>|
            known.contains(k) ==> #[trigger] obj_get(tail_body_of(l, e, nl), k) == combined(
                obj_get(put_all(l, l.len()), k),
                field_of(nl, k),
            ),
{
    tail_data_is_sound(l, nl, e, known);
    let t = put_all(l, l.len());
    let p = put_all(nl, nl.len());
    let ns = e + p;
    assembled(l, ns);
    put_fields_are_distinct(l, l.len());
    known_are_apart(t, e, known);
    back_in_turn(t, e, p, p.len());
    back_of_fields(t, nl, nl.len());
    back_is_swept(t, e, e.len());
    assert forall|k: Seq<char>| known.contains(k) implies #[trigger] obj_get(ns, k) == obj_get(p, k) by {
        assert forall|i: int| 0 <= i < e.len() implies (#[trigger] e[i]).0 != k by {
            assert(!known.contains(e[i].0));
        }
        members_behind_are_read(e, p, k);
    }
    let f = front(l, ns);
    let g = front(l, p);
    assert forall|i: int| 0 <= i < l.len() implies (#[trigger] f[i]) == g[i] by {
        assert(known.contains(l[i].0));
    }
    assert(f =~= g);
    let b = put_all(behind(t, nl), nl.len());
    let head = put_all(g, l.len());
    assert(head + (swept(e) + b) =~= head + swept(e) + b);
    assert forall|i: int| 0 <= i < g.len() implies known.contains((#[trigger] g[i]).0) by {
        assert(known.contains(l[i].0));
    }
    put_fields_are_known(g, l.len(), known);
    let x = behind(t, nl);
    assert forall|i: int| 0 <= i < x.len() implies known.contains((#[trigger] x[i]).0) by {
        assert(known.contains(nl[i].0));
    }
    put_fields_are_known(x, nl.len(), known);
    swept_data_avoids(e, known);
    unmodeled_members_are_kept(head, swept(e), known);
    unmodeled_members_add_up(head + swept(e), b, known);
    modeled_members_are_known(b, known);
    assert(swept(e) + Seq::<(Seq<char>, JsonV)>::empty() =~= swept(e));
    assert forall|k: Seq<char>| known.contains(k) implies #[trigger] obj_get(tail_body_of(l, e, nl), k) == combined(
        obj_get(t, k),
        field_of(nl, k),
    ) by {
        combined_is_read(t, ns, k);
        assert(obj_get(ns, k) == obj_get(p, k));
    }
}

/// Two bodies whose data fields come last are the same when their fields have
/// values at the same names, and fields and data combine to the same.
pub proof fn tail_bodies_agree(
    l: FieldsV,
    nl: FieldsV,
    e: ObjV,
    l2: FieldsV,
    nl2: FieldsV,
    e2: ObjV,
    known: Seq<Seq<char>>,
)
    requires
        sound(l, nl, e, known),
        sound(l2, nl2, e2, known),
        l.len() == l2.len(),
        nl.len() == nl2.len(),
        forall|i: int|
            0 <= i < l.len() ==> (#[trigger] l[i]).0 == l2[i].0 && (l[i].1 is Some) == (l2[i].1 is Some) && combined(
                l[i].1,
                field_of(nl, l[i].0),
            ) == combined(l2[i].1, field_of(nl2, l[i].0)),
        forall|i: int|
            0 <= i < nl.len() ==> (#[trigger] nl[i]).0 == nl2[i].0 && combined(
                obj_get(put_all(l, l.len()), nl[i].0),
                nl[i].1,
            ) == combined(obj_get(put_all(l2, l2.len()), nl[i].0), nl2[i].1),
        swept(e) == swept(e2),
    ensures
        tail_body_of(l, e, nl) == tail_body_of(l2, e2, nl2),
{
    tail_body_is_assembled(l, nl, e, known);
    tail_body_is_assembled(l2, nl2, e2, known);
    let t = put_all(l, l.len());
    let t2 = put_all(l2, l2.len());
    let f = front(l, put_all(nl, nl.len()));
    let f2 = front(l2, put_all(nl2, nl2.len()));
    assert forall|i: int| 0 <= i < l.len() implies (#[trigger] f[i]) == f2[i] by {
        assert(l[i].0 == l2[i].0);
    }
    assert(f =~= f2);
    let b = behind(t, nl);
    let b2 = behind(t2, nl2);
    assert forall|i: int| 0 <= i < nl.len() implies (#[trigger] b[i]) == b2[i] by {
        assert(nl[i].0 == nl2[i].0);
        presence(l, l2, nl[i].0);
    }
    assert(b =~= b2);
}

} // verus!
