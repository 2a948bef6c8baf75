//! Laws: nodes with a cache hint and unmodeled members in their canonical
//! form.

use vstd::prelude::*;
use crate::decode::{extended, extended_upto, unknown};
use crate::format::ANTHROPIC_MESSAGES;
use crate::formats::anthropic_messages::blocks::{cache_control, with_cache};
use crate::formats::anthropic_messages::parse_blocks::{leftover, split_cache};
use crate::formats::anthropic_messages::round_trip::block_names;
use crate::formats::anthropic_messages::types::{cache_control_keys, decode_cache_control, encode_cache_control, opt_cache_control, CacheControlV};
use crate::ir::{extra_merged, non_null, CacheHintV};
use crate::json::{obj_get, obj_index, obj_index_props, obj_set, JsonV, ObjV};
use crate::merge::{merge_members, merged};
use crate::namespaces::{absent, absent_is_not_read, avoids, clean, extended_nothing, first_named_is_read, front_members_are_read, members_behind_are_read, merges_in_turn, modeled_members_are_known, nothing_is_dropped, there, unmodeled_members_add_up, unmodeled_members_are_kept, within};
use crate::sweep::{apart_data_is_appended, clean_data_is_swept, clean_member_by_member, fields_are_merged, kept, kept_fields_avoid, kept_fields_stay, known_are_apart, non_null_avoids, swept, swept_data_avoids, swept_data_is_clean, swept_data_is_there};

verus! {

/// What a node with these members, `cache_control` and unmodeled members
/// becomes on its way through the IR.
pub open spec fn node_value(t: ObjV, cc: Option<CacheControlV>, rest: ObjV) -> JsonV {
    let (cache, fields) = split_cache(cc, rest);
    extra_merged(leftover(fields), ANTHROPIC_MESSAGES@, with_cache(JsonV::Object(t), cache))
}

/// The modeled members of a `cache_control`.
pub open spec fn cache_head(cc: CacheControlV) -> ObjV {
    match cc.ttl {
        Some(x) => seq![("type"@, JsonV::Str(cc.kind)), ("ttl"@, JsonV::Str(x))],
        None => seq![("type"@, JsonV::Str(cc.kind))],
    }
}

/// What the wire keeps of a `cache_control`.
pub open spec fn settled_cache(cc: Option<CacheControlV>) -> Option<CacheControlV> {
    match cc {
        Some(cc) => Some(
            CacheControlV {
                extra: if cc.kind == "ephemeral"@ {
                    kept(cc.extra)
                } else {
                    swept(extended(Seq::empty(), cc.extra))
                },
                ..cc
            },
        ),
        None => None,
    }
}

/// The canonical form of a node. A hint stands before the unmodeled members,
/// a `cache_control` of another type behind them.
pub open spec fn node_shape(t: ObjV, cc: Option<CacheControlV>, rest: ObjV) -> ObjV {
    match cc {
        None => t + rest,
        Some(cc) => {
            let member = ("cache_control"@, JsonV::Object(cache_head(cc) + cc.extra));
            if cc.kind == "ephemeral"@ {
                t.push(member) + rest
            } else {
                t + rest.push(member)
            }
        },
    }
}

/// The `cache_control` names its own members apart from the unmodeled ones.
pub open spec fn cache_is_apart(cc: Option<CacheControlV>) -> bool {
    match cc {
        Some(cc) => avoids(cc.extra, cache_control_keys()),
        None => true,
    }
}

proof fn non_null_front(o: ObjV, x: (Seq<char>, JsonV), n: nat)
    requires
        n <= o.len(),
    ensures
        non_null(o.push(x), n) == non_null(o, n),
    decreases n,
{
    if n > 0 {
        non_null_front(o, x, (n - 1) as nat);
    }
}

pub proof fn extended_behind(t: ObjV, more: ObjV, n: nat)
    requires
        n <= more.len(),
        forall|i: int| 0 <= i < n ==> absent(t, (#[trigger] more[i]).0),
    ensures
        extended_upto(t, more, n) == t + extended_upto(Seq::empty(), more, n),
    decreases n,
{
    broadcast use obj_index_props;
    let none = Seq::<(Seq<char>, JsonV)>::empty();
    if n == 0 {
        assert(t + none =~= t);
    } else {
        extended_behind(t, more, (n - 1) as nat);
        let u = extended_upto(none, more, (n - 1) as nat);
        let k = more[n - 1].0;
        let v = more[n - 1].1;
        reveal(obj_set);
        let i = obj_index(u, k);
        let j = obj_index(t + u, k);
        assert(j == t.len() + i) by {
            if j < t.len() {
                assert((t + u)[j].0 == t[j].0);
            } else if j < t.len() + i {
                assert((t + u)[j].0 == u[j - t.len()].0);
            } else if j > t.len() + i {
                assert((t + u)[t.len() + i].0 == u[i].0);
            }
        }
        if i < u.len() {
            assert((t + u).update(j, (k, v)) =~= t + u.update(i, (k, v)));
        } else {
            assert((t + u).push((k, v)) =~= t + u.push((k, v)));
        }
    }
}

pub proof fn extended_avoids(more: ObjV, known: Seq<Seq<char>>, n: nat)
    requires
        n <= more.len(),
        avoids(more, known),
    ensures
        avoids(extended_upto(Seq::empty(), more, n), known),
    decreases n,
{
    broadcast use obj_index_props;
    reveal(obj_set);
    if n > 0 {
        extended_avoids(more, known, (n - 1) as nat);
        let u = extended_upto(Seq::empty(), more, (n - 1) as nat);
        let r = extended_upto(Seq::empty(), more, n);
        assert(!known.contains(more[n - 1].0));
        assert forall|i: int| 0 <= i < r.len() implies !known.contains((#[trigger] r[i]).0) by {
            if i < u.len() && i != obj_index(u, more[n - 1].0) {
                assert(r[i] == u[i]);
            }
        }
    }
}

proof fn head_is_clean(cc: CacheControlV)
    ensures
        clean(cache_head(cc)),
        within(cache_head(cc), cache_control_keys()),
{
    block_names();
    let known = cache_control_keys();
    assert(known[0] == "type"@ && known[1] == "ttl"@);
    clean_member_by_member(cache_head(cc));
}

proof fn encoded_cache(cc: CacheControlV)
    requires
        avoids(cc.extra, cache_control_keys()),
    ensures
        encode_cache_control(cc) == JsonV::Object(cache_head(cc) + extended(Seq::empty(), cc.extra)),
        avoids(extended(Seq::empty(), cc.extra), cache_control_keys()),
{
    block_names();
    let none = Seq::<(Seq<char>, JsonV)>::empty();
    head_is_clean(cc);
    known_are_apart(cache_head(cc), cc.extra, cache_control_keys());
    extended_behind(cache_head(cc), cc.extra, cc.extra.len());
    extended_avoids(cc.extra, cache_control_keys(), cc.extra.len());
    absent_is_not_read(none, "type"@, JsonV::Str(cc.kind));
    let o1 = none.push(("type"@, JsonV::Str(cc.kind)));
    match cc.ttl {
        Some(x) => {
            absent_is_not_read(o1, "ttl"@, JsonV::Str(x));
            assert(o1.push(("ttl"@, JsonV::Str(x))) =~= cache_head(cc));
        },
        None => {
            assert(o1 =~= cache_head(cc));
        },
    }
}

/// A node becomes its canonical form.
pub proof fn node_is_written(t: ObjV, known: Seq<Seq<char>>, cc: Option<CacheControlV>, rest: ObjV)
    requires
        within(t, known),
        absent(t, "cache_control"@),
        known.contains("cache_control"@),
        avoids(rest, known),
        cache_is_apart(cc),
    ensures
        node_value(t, cc, rest) == JsonV::Object(node_shape(t, settled_cache(cc), kept(rest))),
        clean(kept(rest)),
        avoids(kept(rest), known),
        cache_is_apart(settled_cache(cc)),
        settled_cache(cc) is Some ==> clean(settled_cache(cc)->0.extra),
{
    let fmt = ANTHROPIC_MESSAGES@;
    let k = "cache_control"@;
    let none = Seq::<(Seq<char>, JsonV)>::empty();
    let n = non_null(rest, rest.len());
    let r = kept(rest);
    kept_fields_stay(rest);
    kept_fields_avoid(rest, known);
    non_null_avoids(rest, known);
    let inner = cache_control_keys();
    match cc {
        None => {
            fields_are_merged(fmt, t, rest);
            known_are_apart(t, n, known);
            apart_data_is_appended(t, n, n.len());
        },
        Some(cc) => {
            assert(absent(rest, k)) by {
                assert forall|j: int| 0 <= j < rest.len() implies (#[trigger] rest[j]).0 != k by {
                    assert(!known.contains(rest[j].0));
                }
            }
            assert(absent(r, k)) by {
                assert forall|j: int| 0 <= j < r.len() implies (#[trigger] r[j]).0 != k by {
                    assert(!known.contains(r[j].0));
                }
            }
            if cc.kind == "ephemeral"@ {
                let h = CacheHintV { ttl: cc.ttl };
                let head = cache_head(cc);
                assert(cache_control(h)->Object_0 =~= head);
                absent_is_not_read(t, k, cache_control(h));
                let hinted = t.push((k, JsonV::Object(head)));
                assert(with_cache(JsonV::Object(t), Some(h)) == JsonV::Object(hinted));
                assert(within(hinted, known));
                let d = non_null(cc.extra, cc.extra.len());
                let q = kept(cc.extra);
                kept_fields_stay(cc.extra);
                kept_fields_avoid(cc.extra, inner);
                swept_data_is_there(cc.extra);
                known_are_apart(hinted, n, known);
                apart_data_is_appended(hinted, n, n.len());
                let prev = hinted + r;
                assert(merged(hinted, n) == prev);
                if d.len() > 0 {
                    let fields = rest.push((k, JsonV::Object(d)));
                    absent_is_not_read(rest, k, JsonV::Object(d));
                    assert(split_cache(Some(cc), rest) == (Some(h), fields));
                    fields_are_merged(fmt, hinted, fields);
                    non_null_front(rest, (k, JsonV::Object(d)), rest.len());
                    let p = n.push((k, JsonV::Object(d)));
                    assert(non_null(fields, fields.len()) == p);
                    merge_prefix(hinted, n, (k, JsonV::Object(d)), n.len());
                    there(hinted, r, k, t.len() as int);
                    head_is_clean(cc);
                    non_null_avoids(cc.extra, inner);
                    known_are_apart(head, d, inner);
                    apart_data_is_appended(head, d, d.len());
                    assert(merged(hinted, p) == obj_set(prev, k, JsonV::Object(head + q)));
                    set_in_front(t, JsonV::Object(head), JsonV::Object(head + q), r, k);
                } else {
                    assert(split_cache(Some(cc), rest) == (Some(h), rest));
                    fields_are_merged(fmt, hinted, rest);
                    assert(q =~= none);
                    assert(head + q =~= head);
                }
            } else {
                encoded_cache(cc);
                let x = extended(none, cc.extra);
                let head = cache_head(cc);
                let e = head + x;
                let fields = rest.push((k, JsonV::Object(e)));
                absent_is_not_read(rest, k, JsonV::Object(e));
                assert(split_cache(Some(cc), rest) == (None::<CacheHintV>, fields));
                fields_are_merged(fmt, t, fields);
                non_null_front(rest, (k, JsonV::Object(e)), rest.len());
                let p = n.push((k, JsonV::Object(e)));
                assert(non_null(fields, fields.len()) == p);
                merge_prefix(t, n, (k, JsonV::Object(e)), n.len());
                known_are_apart(t, n, known);
                apart_data_is_appended(t, n, n.len());
                let prev = t + r;
                assert(merged(t, n) == prev);
                assert(absent(prev, k)) by {
                    assert forall|j: int| 0 <= j < prev.len() implies (#[trigger] prev[j]).0 != k by {
                        if j >= t.len() {
                            assert(prev[j] == r[j - t.len()]);
                        }
                    }
                }
                absent_is_not_read(prev, k, JsonV::Object(swept(e)));
                assert(merged(t, p) == prev.push((k, JsonV::Object(swept(e)))));
                head_is_clean(cc);
                swept_data_is_clean(x);
                swept_data_avoids(x, inner);
                split_sweep(head, x, inner);
                assert(prev.push((k, JsonV::Object(head + swept(x)))) =~= t + r.push(
                    (k, JsonV::Object(head + swept(x))),
                ));
            }
        },
    }
}

/// Sweeping goes member by member where names differ.
pub proof fn split_sweep(head: ObjV, x: ObjV, known: Seq<Seq<char>>)
    requires
        clean(head),
        within(head, known),
        avoids(x, known),
    ensures
        swept(head + x) == head + swept(x),
{
    let none = Seq::<(Seq<char>, JsonV)>::empty();
    clean_data_is_swept(head);
    merges_in_turn(none, head, x, x.len());
    known_are_apart(head, x, known);
    apart_data_is_appended(head, x, x.len());
}

proof fn merge_prefix(t: ObjV, p: ObjV, x: (Seq<char>, JsonV), n: nat)
    requires
        n <= p.len(),
    ensures
        merge_members(t, p.push(x), n) == merge_members(t, p, n),
    decreases n,
{
    if n > 0 {
        merge_prefix(t, p, x, (n - 1) as nat);
    }
}

proof fn set_in_front(t: ObjV, v: JsonV, w: JsonV, r: ObjV, k: Seq<char>)
    requires
        absent(t, k),
    ensures
        obj_set(t.push((k, v)) + r, k, w) == t.push((k, w)) + r,
{
    let o = t.push((k, v)) + r;
    let i = t.len() as int;
    assert(o[i].0 == k);
    assert forall|j: int| 0 <= j < i implies (#[trigger] o[j]).0 != k by {
        assert(o[j] == t[j]);
    }
    first_named_is_read(o, k, i);
    reveal(obj_set);
    assert(o.update(i, (k, w)) =~= t.push((k, w)) + r);
}

/// The members of a canonical node are read as they are, and the node stays as
/// it is.
pub proof fn node_is_read(t: ObjV, known: Seq<Seq<char>>, cc: Option<CacheControlV>, r: ObjV)
    requires
        within(t, known),
        absent(t, "cache_control"@),
        known.contains("cache_control"@),
        clean(r),
        avoids(r, known),
        cache_is_apart(cc),
        cc is Some ==> clean(cc->0.extra),
    ensures
        forall|n: Seq<char>|
            known.contains(n) && n != "cache_control"@ ==> #[trigger] obj_get(node_shape(t, cc, r), n) == obj_get(t, n),
        forall|n: Seq<char>|
            !known.contains(n) ==> #[trigger] obj_get(node_shape(t, cc, r), n) == obj_get(r, n),
        unknown(node_shape(t, cc, r), known) == r,
        opt_cache_control(node_shape(t, cc, r), "cache_control"@) == Ok::<Option<CacheControlV>, Seq<char>>(cc),
        node_value(t, cc, r) == JsonV::Object(node_shape(t, cc, r)),
{
    let k = "cache_control"@;
    let none = Seq::<(Seq<char>, JsonV)>::empty();
    let w = node_shape(t, cc, r);
    node_is_written(t, known, cc, r);
    clean_data_is_swept(r);
    nothing_is_dropped(r, r.len());
    assert(r.take(r.len() as int) =~= r);
    assert(kept(r) == r);
    assert(absent(r, k)) by {
        assert forall|j: int| 0 <= j < r.len() implies (#[trigger] r[j]).0 != k by {
            assert(!known.contains(r[j].0));
        }
    }
    match cc {
        None => {
            unmodeled_members_are_kept(t, r, known);
            absent_is_not_read(w, k, JsonV::Null);
            assert forall|n: Seq<char>| known.contains(n) && n != k implies #[trigger] obj_get(w, n) == obj_get(t, n) by {
                front_members_are_read(t, r, known, n);
            }
            assert forall|n: Seq<char>| !known.contains(n) implies #[trigger] obj_get(w, n) == obj_get(r, n) by {
                other_is_absent(t, known, n);
                members_behind_are_read(t, r, n);
            }
        },
        Some(c) => {
            let q = c.extra;
            clean_data_is_swept(q);
            nothing_is_dropped(q, q.len());
            assert(q.take(q.len() as int) =~= q);
            head_is_clean(c);
            extended_nothing(q);
            assert(settled_cache(cc) == cc);
            let m = (k, JsonV::Object(cache_head(c) + q));
            cache_is_decoded(c);
            if c.kind == "ephemeral"@ {
                let front = t.push(m);
                assert(within(front, known));
                unmodeled_members_are_kept(front, r, known);
                there(front, r, k, t.len() as int);
                assert forall|n: Seq<char>| known.contains(n) && n != k implies #[trigger] obj_get(w, n) == obj_get(t, n) by {
                    front_members_are_read(front, r, known, n);
                    pushed_other(t, m, n);
                }
                assert forall|n: Seq<char>| !known.contains(n) implies #[trigger] obj_get(w, n) == obj_get(r, n) by {
                    other_is_absent(front, known, n);
                    members_behind_are_read(front, r, n);
                }
            } else {
                let back = r.push(m);
                unmodeled_members_add_up(t, back, known);
                modeled_members_are_known(t, known);
                assert(back =~= r + seq![m]);
                unmodeled_members_add_up(r, seq![m], known);
                assert(within(seq![m], known));
                modeled_members_are_known(seq![m], known);
                unmodeled_members_are_kept(none, r, known);
                assert(none + r =~= r);
                assert(r + none =~= r);
                members_behind_are_read(t, back, k);
                first_named_is_read(back, k, r.len() as int);
                assert forall|n: Seq<char>| known.contains(n) && n != k implies #[trigger] obj_get(w, n) == obj_get(t, n) by {
                    pushed_other(r, m, n);
                    assert(absent(r, n)) by {
                        assert forall|j: int| 0 <= j < r.len() implies (#[trigger] r[j]).0 != n by {
                            assert(!known.contains(r[j].0));
                        }
                    }
                    absent_is_not_read(r, n, JsonV::Null);
                    read_in_front(t, back, n);
                }
                assert forall|n: Seq<char>| !known.contains(n) implies #[trigger] obj_get(w, n) == obj_get(r, n) by {
                    other_is_absent(t, known, n);
                    members_behind_are_read(t, back, n);
                    pushed_other(r, m, n);
                }
            }
        },
    }
}

proof fn other_is_absent(t: ObjV, known: Seq<Seq<char>>, n: Seq<char>)
    requires
        within(t, known),
        !known.contains(n),
    ensures
        absent(t, n),
{
    assert forall|j: int| 0 <= j < t.len() implies (#[trigger] t[j]).0 != n by {
        assert(known.contains(t[j].0));
    }
}

proof fn pushed_other(t: ObjV, m: (Seq<char>, JsonV), n: Seq<char>)
    requires
        m.0 != n,
    ensures
        obj_get(t.push(m), n) == obj_get(t, n),
{
    broadcast use obj_index_props;
    reveal(obj_get);
    let o = t.push(m);
    let i = obj_index(t, n);
    let j = obj_index(o, n);
    if j < t.len() {
        assert(o[j] == t[j]);
    }
    if i < t.len() {
        assert(o[i] == t[i]);
    }
}

proof fn read_in_front(t: ObjV, back: ObjV, n: Seq<char>)
    requires
        obj_get(back, n) is None,
    ensures
        obj_get(t + back, n) == obj_get(t, n),
{
    broadcast use obj_index_props;
    reveal(obj_get);
    let o = t + back;
    let i = obj_index(t, n);
    let j = obj_index(o, n);
    if j < t.len() {
        assert(o[j] == t[j]);
    } else if j < o.len() {
        assert(o[j] == back[j - t.len()]);
        assert(obj_index(back, n) <= j - t.len());
    }
    if i < t.len() {
        assert(o[i] == t[i]);
    }
}

proof fn cache_is_decoded(cc: CacheControlV)
    requires
        avoids(cc.extra, cache_control_keys()),
    ensures
        decode_cache_control(JsonV::Object(cache_head(cc) + cc.extra)) == Ok::<CacheControlV, Seq<char>>(cc),
{
    block_names();
    head_is_clean(cc);
    let head = cache_head(cc);
    let known = cache_control_keys();
    assert(known[0] == "type"@ && known[1] == "ttl"@);
    unmodeled_members_are_kept(head, cc.extra, known);
    there(head, cc.extra, "type"@, 0);
    if cc.ttl is Some {
        there(head, cc.extra, "ttl"@, 1);
    } else {
        front_members_are_read(head, cc.extra, known, "ttl"@);
        absent_is_not_read(head, "ttl"@, JsonV::Null);
    }
}

} // verus!
