//! Laws: the configuration of a request in its canonical form, member by member.

use vstd::prelude::*;
use crate::assembly::{bodies_agree, body_is_assembled, body_of, combined, data_is_sound, no_field_is_read, no_nulls, sound, FieldsV};
use crate::decode::{extended, unknown};
use crate::formats::anthropic_messages::canonical_nodes::{extended_avoids, extended_behind, split_sweep};
use crate::formats::anthropic_messages::round_trip_fields::{choice_json, choice_kinds, choice_list, field_names, format_members, output_list, thinking_kinds, tool_choice_round_trip};
use crate::formats::anthropic_messages::round_trip_request::plain_metadata;
use crate::formats::anthropic_messages::to_ir::{choice_of, split_metadata};
use crate::formats::anthropic_messages::types::{decode_output_config, decode_output_format_config, decode_thinking_config, decode_tool_choice_param, encode_output_format_config, encode_thinking_config, encode_tool_choice_param, output_config_keys, output_format_config_keys, thinking_config_keys, tool_choice_param_keys, OutputFormatConfigV, ThinkingConfigV, ToolChoiceParamV};
use crate::ir::{effort_name, effort_named, non_null, OutputFormatV};
use crate::json::{json_int, obj_get, obj_index, obj_index_props, obj_set, obj_wf, object2, put_if, JsonV, ObjV};
use crate::json_laws::{set_keeps_names_distinct, set_member_is_read};
use crate::merge::{merge_members, merged, obj_part};
use crate::mirror::{mirrored, mirrored2, mirrored_map, mirrored_map2, mirrored_map3};
use crate::namespaces::{absent, absent_is_not_read, avoids, clean, extended_nothing, first_named_is_read, front_members_are_read, merges_in_turn, names_differ, nothing_is_dropped, put_all, put_fields_are_known, put_fields_are_read, there, unknown_avoids, unmodeled_members_are_kept, with_data, within};
use crate::sweep::{apart_data_is_appended, changes_behind, clean_data_is_swept, clean_member_by_member, clean_value, known_are_apart, swept, swept_data_avoids, swept_data_is_clean, swept_data_is_there, swept_data_lacks, swept_data_stays};

verus! {

/// The members of an object, each once and none of them `null`.
pub open spec fn deduped(m: ObjV) -> ObjV {
    mirrored_map(Seq::empty(), m, m.len())
}

proof fn set_fills(o: ObjV, k: Seq<char>, v: JsonV)
    requires
        !(v is Null),
        no_nulls(o),
    ensures
        no_nulls(obj_set(o, k, v)),
        obj_set(o, k, v).len() > 0,
        forall|known: Seq<Seq<char>>| avoids(o, known) && !known.contains(k) ==> #[trigger] avoids(obj_set(o, k, v), known),
{
    broadcast use obj_index_props;
    reveal(obj_set);
    let r = obj_set(o, k, v);
    let x = obj_index(o, k);
    assert forall|i: int| 0 <= i < r.len() implies !((#[trigger] r[i]).1 is Null) by {
        if i != x {
            assert(r[i] == o[i]);
        }
    }
    assert forall|known: Seq<Seq<char>>| avoids(o, known) && !known.contains(k) implies #[trigger] avoids(r, known) by {
        assert forall|i: int| 0 <= i < r.len() implies !known.contains((#[trigger] r[i]).0) by {
            if i != x {
                assert(r[i] == o[i]);
            }
        }
    }
}

/// Mirrored members have the names they had, each once, and are not `null`.
pub proof fn mirrored_members(o: ObjV, m: ObjV, n: nat)
    requires
        n <= m.len(),
        no_nulls(o),
        obj_wf(o),
    ensures
        no_nulls(mirrored_map(o, m, n)),
        obj_wf(mirrored_map(o, m, n)),
        forall|known: Seq<Seq<char>>|
            avoids(o, known) && avoids(m, known) ==> #[trigger] avoids(mirrored_map(o, m, n), known),
    decreases n,
{
    if n > 0 {
        mirrored_members(o, m, (n - 1) as nat);
        let prev = mirrored_map(o, m, (n - 1) as nat);
        if !(m[n - 1].1 is Null) {
            set_fills(prev, m[n - 1].0, m[n - 1].1);
            set_keeps_names_distinct(prev, m[n - 1].0, m[n - 1].1);
        }
        assert forall|known: Seq<Seq<char>>| avoids(o, known) && avoids(m, known) implies #[trigger] avoids(
            mirrored_map(o, m, n),
            known,
        ) by {
            assert(avoids(prev, known));
            assert(!known.contains(m[n - 1].0));
        }
    }
}

/// Mirroring behind members of other names appends.
pub proof fn mirrored_behind(t: ObjV, m: ObjV, n: nat)
    requires
        n <= m.len(),
        forall|i: int| 0 <= i < n ==> absent(t, (#[trigger] m[i]).0),
    ensures
        mirrored_map(t, m, n) == t + mirrored_map(Seq::empty(), m, n),
    decreases n,
{
    let none = Seq::<(Seq<char>, JsonV)>::empty();
    if n == 0 {
        assert(t + none =~= t);
    } else {
        mirrored_behind(t, m, (n - 1) as nat);
        changes_behind(t, mirrored_map(none, m, (n - 1) as nat), m[n - 1].0, m[n - 1].1);
    }
}

/// Clean data is mirrored as it is.
pub proof fn clean_is_deduped(c: ObjV, n: nat)
    requires
        n <= c.len(),
        clean(c),
    ensures
        mirrored_map(Seq::empty(), c, n) == c.take(n as int),
    decreases n,
{
    if n == 0 {
        assert(c.take(0) =~= Seq::<(Seq<char>, JsonV)>::empty());
    } else {
        clean_is_deduped(c, (n - 1) as nat);
        let prev = c.take(n - 1);
        clean_member_by_member(c);
        assert(clean_value(c[n - 1].1));
        assert(absent(prev, c[n - 1].0)) by {
            assert forall|j: int| 0 <= j < prev.len() implies (#[trigger] prev[j]).0 != c[n - 1].0 by {
                assert(c[j].0 != c[n - 1].0);
            }
        }
        absent_is_not_read(prev, c[n - 1].0, c[n - 1].1);
        assert(c.take(n as int) =~= prev.push(c[n - 1]));
    }
}

pub proof fn data_is_put(o: ObjV, a: Seq<char>, p: ObjV)
    requires
        absent(o, a),
    ensures
        with_data(o, a, p) == (if p.len() > 0 { o.push((a, JsonV::Object(p))) } else { o }),
        obj_part(obj_get(with_data(o, a, p), a)) == p,
{
    absent_is_not_read(o, a, JsonV::Object(p));
    if p.len() > 0 {
        set_member_is_read(o, a, JsonV::Object(p));
    } else {
        assert(p =~= Seq::<(Seq<char>, JsonV)>::empty());
    }
}

proof fn data_is_set(o: ObjV, a: Seq<char>, p: ObjV, q: ObjV)
    requires
        absent(o, a),
        q.len() > 0,
    ensures
        obj_set(with_data(o, a, p), a, JsonV::Object(q)) == with_data(o, a, q),
{
    broadcast use obj_index_props;
    data_is_put(o, a, p);
    data_is_put(o, a, q);
    if p.len() > 0 {
        let w = o.push((a, JsonV::Object(p)));
        assert forall|j: int| 0 <= j < o.len() implies (#[trigger] w[j]).0 != a by {
            assert(w[j] == o[j]);
        }
        first_named_is_read(w, a, o.len() as int);
        reveal(obj_set);
        assert(w.update(o.len() as int, (a, JsonV::Object(q))) =~= o.push((a, JsonV::Object(q))));
    }
}

/// A member that is mirrored under a name joins the object of that name.
pub proof fn mirrored_under(o: ObjV, a: Seq<char>, p: ObjV, k: Seq<char>, v: JsonV)
    requires
        absent(o, a),
    ensures
        mirrored2(with_data(o, a, p), a, k, v) == with_data(o, a, mirrored(p, k, v)),
{
    broadcast use obj_index_props;
    data_is_put(o, a, p);
    if !(v is Null) {
        assert(obj_set(p, k, v).len() > 0) by {
            reveal(obj_set);
        }
        data_is_set(o, a, p, obj_set(p, k, v));
    }
}

/// Members that are mirrored under a name make up an object of that name.
pub proof fn map_is_mirrored_under(o: ObjV, a: Seq<char>, p: ObjV, m: ObjV, n: nat)
    requires
        absent(o, a),
        n <= m.len(),
    ensures
        mirrored_map2(with_data(o, a, p), a, m, n) == with_data(o, a, mirrored_map(p, m, n)),
    decreases n,
{
    if n > 0 {
        map_is_mirrored_under(o, a, p, m, (n - 1) as nat);
        mirrored_under(o, a, mirrored_map(p, m, (n - 1) as nat), m[n - 1].0, m[n - 1].1);
    }
}

pub proof fn map_is_mirrored_deeper(o: ObjV, a: Seq<char>, b: Seq<char>, m: ObjV, n: nat)
    requires
        absent(o, a),
        n <= m.len(),
    ensures
        mirrored_map3(o, a, b, m, n) == with_data(o, a, mirrored_map2(Seq::empty(), b, m, n)),
    decreases n,
{
    broadcast use obj_index_props;
    let none = Seq::<(Seq<char>, JsonV)>::empty();
    if n > 0 {
        map_is_mirrored_deeper(o, a, b, m, (n - 1) as nat);
        let p = mirrored_map2(none, b, m, (n - 1) as nat);
        let k = m[n - 1].0;
        let v = m[n - 1].1;
        data_is_put(o, a, p);
        if !(v is Null) {
            let q = mirrored2(p, b, k, v);
            assert(q.len() > 0) by {
                reveal(obj_set);
            }
            data_is_set(o, a, p, q);
        }
    }
}

/// The unmodeled members of metadata among the first `n`.
pub open spec fn metadata_rest(m: ObjV, n: nat) -> ObjV
    decreases n,
{
    if n == 0 || n > m.len() {
        Seq::empty()
    } else if m[n - 1].0 == "user_id"@ {
        metadata_rest(m, (n - 1) as nat)
    } else {
        mirrored(metadata_rest(m, (n - 1) as nat), m[n - 1].0, m[n - 1].1)
    }
}

/// Metadata is split into a user id and the rest.
pub proof fn metadata_is_parted(m: ObjV, root: ObjV, n: nat)
    requires
        n <= m.len(),
        absent(root, "metadata"@),
    ensures
        split_metadata(m, root, n).1 == with_data(root, "metadata"@, metadata_rest(m, n)),
        split_metadata(m, root, n).0 == split_metadata(m, Seq::empty(), n).0,
        ({
            let ids = split_metadata(m, root, n).0;
            ids.len() > 0 ==> plain_metadata(Some(ids))
        }),
        no_nulls(metadata_rest(m, n)),
        obj_wf(metadata_rest(m, n)),
        absent(metadata_rest(m, n), "user_id"@),
    decreases n,
{
    broadcast use obj_index_props;
    if n > 0 {
        metadata_is_parted(m, root, (n - 1) as nat);
        let p = metadata_rest(m, (n - 1) as nat);
        let (ids, r) = split_metadata(m, root, (n - 1) as nat);
        let k = m[n - 1].0;
        let v = m[n - 1].1;
        if k == "user_id"@ {
            reveal(obj_set);
        } else {
            mirrored_under(root, "metadata"@, p, k, v);
            if !(v is Null) {
                set_fills(p, k, v);
                set_keeps_names_distinct(p, k, v);
                assert(avoids(p, seq!["user_id"@])) by {
                    assert forall|j: int| 0 <= j < p.len() implies !seq!["user_id"@].contains((#[trigger] p[j]).0) by {}
                }
                assert(avoids(obj_set(p, k, v), seq!["user_id"@]));
                let q = obj_set(p, k, v);
                assert forall|j: int| 0 <= j < q.len() implies (#[trigger] q[j]).0 != "user_id"@ by {
                    assert(seq!["user_id"@][0] == "user_id"@);
                    assert(!seq!["user_id"@].contains(q[j].0));
                }
            }
        }
    }
}

/// Data without `null` members is all there.
pub proof fn nothing_null(o: ObjV)
    requires
        no_nulls(o),
    ensures
        non_null(o, o.len()) == o,
{
    nothing_null_upto(o, o.len());
    assert(o.take(o.len() as int) =~= o);
}

proof fn nothing_null_upto(o: ObjV, n: nat)
    requires
        no_nulls(o),
        n <= o.len(),
    ensures
        non_null(o, n) == o.take(n as int),
    decreases n,
{
    if n > 0 {
        nothing_null_upto(o, (n - 1) as nat);
        assert(!(o[n - 1].1 is Null));
        assert(o.take(n as int) =~= o.take(n - 1).push(o[n - 1]));
    } else {
        assert(o.take(0) =~= Seq::<(Seq<char>, JsonV)>::empty());
    }
}

/// An object where there are members.
pub open spec fn some_object(o: ObjV) -> Option<JsonV> {
    if o.len() > 0 {
        Some(JsonV::Object(o))
    } else {
        None
    }
}

/// Data with its unmodeled members taken once has nothing more to sweep away
/// after it was swept.
pub proof fn swept_is_deduped(m: ObjV)
    ensures
        deduped(swept(m)) == swept(m),
        swept(deduped(swept(m))) == swept(m),
        non_null(swept(m), swept(m).len()) == swept(m),
{
    swept_data_is_clean(m);
    clean_is_deduped(swept(m), swept(m).len());
    assert(swept(m).take(swept(m).len() as int) =~= swept(m));
    swept_data_stays(m);
    nothing_is_dropped(swept(m), swept(m).len());
}

/// Unmodeled members taken once: each has a name of its own, none is `null`.
pub proof fn deduped_is_sound(m: ObjV, known: Seq<Seq<char>>)
    requires
        avoids(m, known),
    ensures
        obj_wf(deduped(m)),
        no_nulls(deduped(m)),
        avoids(deduped(m), known),
        avoids(swept(deduped(m)), known),
        clean(swept(deduped(m))),
{
    let none = Seq::<(Seq<char>, JsonV)>::empty();
    mirrored_members(none, m, m.len());
    assert(avoids(none, known));
    assert(avoids(deduped(m), known));
    swept_data_avoids(deduped(m), known);
    swept_data_is_clean(deduped(m));
}

/// Metadata in its canonical form keeps it.
pub proof fn metadata_settles(m: ObjV)
    ensures
        ({
            let ids = split_metadata(m, Seq::empty(), m.len()).0;
            let rest = metadata_rest(m, m.len());
            let v = combined(some_object(ids), some_object(rest));
            match v {
                Some(JsonV::Object(n)) => {
                    &&& split_metadata(n, Seq::empty(), n.len()).0 == ids
                    &&& combined(some_object(ids), some_object(metadata_rest(n, n.len()))) == v
                },
                None => ids.len() == 0 && rest.len() == 0,
                _ => false,
            }
        }),
{
    let none = Seq::<(Seq<char>, JsonV)>::empty();
    metadata_is_parted(m, none, m.len());
    let ids = split_metadata(m, none, m.len()).0;
    let rest = metadata_rest(m, m.len());
    let r = swept(rest);
    swept_data_is_clean(rest);
    swept_data_lacks(rest, "user_id"@);
    nothing_null(rest);
    swept_data_is_there(rest);
    assert forall|i: int| 0 <= i < rest.len() implies absent(ids, (#[trigger] rest[i]).0) by {
        assert(rest[i].0 != "user_id"@);
    }
    apart_data_is_appended(ids, rest, rest.len());
    let n = ids + r;
    if rest.len() == 0 {
        assert(rest =~= none);
        assert(r == none);
        assert(n =~= ids);
    }
    if ids.len() == 0 {
        assert(ids =~= none);
        assert(n =~= r);
    }
    assert(n.len() > 0 ==> combined(some_object(ids), some_object(rest)) == Some(JsonV::Object(n)));
    rest_behind_ids(ids, r, r.len());
    assert(r.take(r.len() as int) =~= r);
    swept_data_stays(rest);
    assert forall|i: int| 0 <= i < r.len() implies absent(ids, (#[trigger] r[i]).0) by {
        assert(r[i].0 != "user_id"@);
    }
    apart_data_is_appended(ids, r, r.len());
}

proof fn rest_behind_ids(ids: ObjV, r: ObjV, n: nat)
    requires
        ids.len() == 0 || plain_metadata(Some(ids)),
        clean(r),
        absent(r, "user_id"@),
        n <= r.len(),
    ensures
        split_metadata(ids + r, Seq::empty(), ids.len() + n).0 == ids,
        metadata_rest(ids + r, ids.len() + n) == r.take(n as int),
    decreases n,
{
    let none = Seq::<(Seq<char>, JsonV)>::empty();
    let m = ids + r;
    if n == 0 {
        assert(r.take(0) =~= none);
        assert(split_metadata(m, none, 0) == (none, none));
        assert(metadata_rest(m, 0) == none);
        if ids.len() == 1 {
            assert(m[0] == ids[0]);
            absent_is_not_read(none, ids[0].0, ids[0].1);
            assert(split_metadata(m, none, 1).0 =~= ids);
            assert(metadata_rest(m, 1) == none);
        } else {
            assert(ids =~= none);
        }
    } else {
        rest_behind_ids(ids, r, (n - 1) as nat);
        let prev = r.take(n - 1);
        assert(m[ids.len() + n - 1] == r[n - 1]);
        assert(r[n - 1].0 != "user_id"@);
        clean_member_by_member(r);
        assert(clean_value(r[n - 1].1));
        assert(absent(prev, r[n - 1].0)) by {
            assert forall|j: int| 0 <= j < prev.len() implies (#[trigger] prev[j]).0 != r[n - 1].0 by {
                assert(r[j].0 != r[n - 1].0);
            }
        }
        absent_is_not_read(prev, r[n - 1].0, r[n - 1].1);
        assert(r.take(n as int) =~= prev.push(r[n - 1]));
    }
}

/// The setting for parallel calls that a choice of none keeps as data.
pub open spec fn choice_flag(tc: ToolChoiceParamV) -> FieldsV {
    seq![
        (
            "disable_parallel_tool_use"@,
            match tc.disable_parallel_tool_use {
                Some(d) => if tc.kind == "none"@ { Some(JsonV::Bool(d)) } else { None },
                None => None,
            },
        ),
    ]
}

/// The data that a parse keeps of a tool choice of a known type.
pub open spec fn choice_rest(tc: ToolChoiceParamV) -> ObjV {
    put_all(choice_flag(tc), 1) + deduped(tc.extra)
}

/// The setting for parallel calls that a tool choice gives.
pub open spec fn choice_parallel(tc: ToolChoiceParamV) -> Option<bool> {
    match tc.disable_parallel_tool_use {
        Some(d) => if tc.kind == "none"@ { None } else { Some(!d) },
        None => None,
    }
}

/// The field of a tool choice: there is none without tools.
pub open spec fn choice_field(tc: Option<ToolChoiceParamV>, has_tools: bool) -> Option<JsonV> {
    match tc {
        Some(tc) => match choice_of(tc) {
            Some(c) => if has_tools { Some(choice_json(c, choice_parallel(tc))) } else { None },
            None => None,
        },
        None => None,
    }
}

/// The data field of a tool choice: what a known type does not model, or all of
/// an unknown one.
pub open spec fn choice_data_field(tc: Option<ToolChoiceParamV>) -> Option<JsonV> {
    match tc {
        Some(tc) => match choice_of(tc) {
            Some(_) => some_object(choice_rest(tc)),
            None => Some(encode_tool_choice_param(tc)),
        },
        None => None,
    }
}

/// The modeled members of a tool choice as they are encoded.
spec fn choice_head(tc: ToolChoiceParamV) -> FieldsV {
    seq![
        ("type"@, Some(JsonV::Str(tc.kind))),
        (
            "name"@,
            match tc.name {
                Some(x) => Some(JsonV::Str(x)),
                None => None,
            },
        ),
        (
            "disable_parallel_tool_use"@,
            match tc.disable_parallel_tool_use {
                Some(x) => Some(JsonV::Bool(x)),
                None => None,
            },
        ),
    ]
}

/// Plain values: no objects, and no `null`.
spec fn plain_fields(l: FieldsV) -> bool {
    forall|i: int| 0 <= i < l.len() ==> match (#[trigger] l[i]).1 {
        Some(v) => !(v is Object) && !(v is Null),
        None => true,
    }
}

proof fn plain_fields_are_clean(l: FieldsV, n: nat)
    requires
        n <= l.len(),
        plain_fields(l),
    ensures
        clean(put_all(l, n)),
    decreases n,
{
    broadcast use obj_index_props;
    if n > 0 {
        plain_fields_are_clean(l, (n - 1) as nat);
        let prev = put_all(l, (n - 1) as nat);
        let o = put_all(l, n);
        if let Some(v) = l[n - 1].1 {
            assert(!(v is Object) && !(v is Null)) by {
                assert(match l[n - 1].1 {
                    Some(v) => !(v is Object) && !(v is Null),
                    None => true,
                });
            }
            set_keeps_names_distinct(prev, l[n - 1].0, v);
            clean_member_by_member(prev);
            reveal(obj_set);
            assert forall|j: int| 0 <= j < o.len() implies clean_value((#[trigger] o[j]).1) by {
                if j != obj_index(prev, l[n - 1].0) {
                    assert(o[j] == prev[j]);
                }
            }
            clean_member_by_member(o);
        }
    } else {
        clean_member_by_member(put_all(l, 0));
    }
}

/// What is encoded whole comes back from its swept form, and is encoded to that
/// form again.
proof fn encoded_whole(l: FieldsV, extra: ObjV, known: Seq<Seq<char>>)
    requires
        names_differ(l),
        plain_fields(l),
        forall|i: int| 0 <= i < l.len() ==> known.contains((#[trigger] l[i]).0),
        avoids(extra, known),
    ensures
        ({
            let h = put_all(l, l.len());
            let x = swept(extended(Seq::empty(), extra));
            &&& extended(h, extra) == h + extended(Seq::empty(), extra)
            &&& swept(extended(h, extra)) == h + x
            &&& extended(h, x) == h + x
            &&& swept(h + x) == h + x
            &&& unknown(h + x, known) == x
            &&& forall|k: Seq<char>| known.contains(k) ==> #[trigger] obj_get(h + x, k) == obj_get(h, k)
        }),
{
    let none = Seq::<(Seq<char>, JsonV)>::empty();
    let h = put_all(l, l.len());
    plain_fields_are_clean(l, l.len());
    put_fields_are_known(l, l.len(), known);
    known_are_apart(h, extra, known);
    extended_behind(h, extra, extra.len());
    let y = extended(none, extra);
    extended_avoids(extra, known, extra.len());
    split_sweep(h, y, known);
    let x = swept(y);
    swept_data_is_clean(y);
    swept_data_avoids(y, known);
    known_are_apart(h, x, known);
    extended_behind(h, x, x.len());
    extended_nothing(x);
    split_sweep(h, x, known);
    swept_data_stays(y);
    unmodeled_members_are_kept(h, x, known);
    assert forall|k: Seq<char>| known.contains(k) implies #[trigger] obj_get(h + x, k) == obj_get(h, k) by {
        front_members_are_read(h, x, known, k);
    }
}

/// A tool choice in its canonical form keeps it.
pub proof fn choice_settles(tc: Option<ToolChoiceParamV>, has_tools: bool)
    requires
        match tc {
            Some(tc) => avoids(tc.extra, tool_choice_param_keys()) && (choice_of(tc) is Some && !has_tools ==> choice_rest(
                tc,
            ).len() == 0),
            None => true,
        },
    ensures
        ({
            let v = combined(choice_field(tc, has_tools), choice_data_field(tc));
            match v {
                Some(j) => match decode_tool_choice_param(j) {
                    Ok(q) => {
                        &&& combined(choice_field(Some(q), has_tools), choice_data_field(Some(q))) == v
                        &&& (choice_field(Some(q), has_tools) is Some) == (choice_field(tc, has_tools) is Some)
                        &&& choice_of(q) is Some ==> has_tools
                        &&& avoids(q.extra, tool_choice_param_keys())
                        &&& !(j is Null)
                    },
                    Err(_) => false,
                },
                None => choice_field(tc, has_tools) is None,
            }
        }),
{
    field_names();
    choice_kinds();
    let none = Seq::<(Seq<char>, JsonV)>::empty();
    let known = tool_choice_param_keys();
    assert(known[0] == "type"@ && known[1] == "name"@ && known[2] == "disable_parallel_tool_use"@);
    if let Some(t) = tc {
        let v = combined(choice_field(tc, has_tools), choice_data_field(tc));
        match choice_of(t) {
            Some(c) => {
                let x = deduped(t.extra);
                deduped_is_sound(t.extra, known);
                let nl = choice_flag(t);
                let p = choice_parallel(t);
                let l = choice_list(c, p);
                assert forall|i: int| 0 <= i < l.len() implies known.contains((#[trigger] l[i]).0) by {
                    assert(l[i].0 == known[i]);
                }
                assert(nl[0].0 == known[2]);
                assert(sound(l, nl, x, known));
                body_is_assembled(l, nl, x, known);
                tool_choice_round_trip(c, p, none, none, Seq::empty());
                let body = body_of(l, nl, x);
                assert(choice_rest(t) == put_all(nl, 1) + x);
                if choice_rest(t).len() == 0 {
                    assert(choice_rest(t) =~= none);
                    assert(merged(put_all(l, 3), none) == put_all(l, 3));
                }
                if has_tools {
                    assert(v == Some(JsonV::Object(body)));
                    put_fields_are_read(l, 3, 0);
                    put_fields_are_read(l, 3, 1);
                    put_fields_are_read(l, 3, 2);
                    put_fields_are_read(nl, 1, 0);
                    no_field_is_read(nl, "type"@);
                    no_field_is_read(nl, "name"@);
                    assert(known.contains("type"@) && known.contains("name"@) && known.contains(
                        "disable_parallel_tool_use"@,
                    ));
                    assert(obj_get(body, "type"@) == l[0].1);
                    assert(obj_get(body, "name"@) == l[1].1);
                    assert(obj_get(body, "disable_parallel_tool_use"@) == combined(l[2].1, nl[0].1));
                    let q = decode_tool_choice_param(JsonV::Object(body))->Ok_0;
                    assert(q.extra == swept(x));
                    assert(q.kind == t.kind);
                    assert(q.disable_parallel_tool_use == t.disable_parallel_tool_use);
                    assert(choice_of(q) == Some(c));
                    swept_is_deduped(x);
                    deduped_is_sound(q.extra, known);
                    assert(choice_flag(q) =~= nl);
                    assert(sound(l, choice_flag(q), deduped(q.extra), known));
                    bodies_agree(l, nl, x, l, choice_flag(q), deduped(q.extra), known);
                    assert(choice_rest(q) == put_all(nl, 1) + deduped(q.extra));
                    if choice_rest(q).len() == 0 {
                        assert(choice_rest(q) =~= none);
                    }
                } else {
                    assert(v is None);
                }
            },
            None => {
                let l = choice_head(t);
                let h = put_all(l, 3);
                assert forall|i: int| 0 <= i < l.len() implies known.contains((#[trigger] l[i]).0) by {
                    assert(l[i].0 == known[i]);
                }
                encoded_whole(l, t.extra, known);
                assert(h == put_if(put_all(l, 2), l[2].0, l[2].1));
                assert(put_all(l, 2) == put_if(put_all(l, 1), l[1].0, l[1].1));
                assert(put_all(l, 1) == put_if(put_all(l, 0), l[0].0, l[0].1));
                assert(encode_tool_choice_param(t) == JsonV::Object(extended(h, t.extra)));
                let x = swept(extended(none, t.extra));
                put_fields_are_read(l, 3, 0);
                put_fields_are_read(l, 3, 1);
                put_fields_are_read(l, 3, 2);
                assert(known.contains("type"@) && known.contains("name"@) && known.contains(
                    "disable_parallel_tool_use"@,
                ));
                let j = JsonV::Object(h + x);
                assert(v == Some(j));
                let q = decode_tool_choice_param(j)->Ok_0;
                assert(q.kind == t.kind && q.name == t.name && q.disable_parallel_tool_use
                    == t.disable_parallel_tool_use && q.extra == x);
                assert(choice_head(q) =~= l);
                assert(encode_tool_choice_param(q) == JsonV::Object(extended(h, x)));
                unknown_avoids(h + x, known, (h + x).len());
            },
        }
    }
}

/// A thinking configuration of a known type: switched on or off.
pub open spec fn known_thinking(t: ThinkingConfigV) -> bool {
    t.kind == "disabled"@ || t.kind == "adaptive"@ || t.kind == "enabled"@
}

/// The display mode is one that the IR has.
pub open spec fn known_display(d: Option<Seq<char>>) -> bool {
    d == Some("summarized"@) || d == Some("omitted"@)
}

/// The generated members of a thinking configuration.
pub open spec fn thinking_base(t: ThinkingConfigV) -> FieldsV {
    seq![
        ("type"@, Some(JsonV::Str(if t.kind == "disabled"@ { "disabled"@ } else { "adaptive"@ }))),
        (
            "display"@,
            if t.kind != "disabled"@ && known_display(t.display) {
                Some(JsonV::Str(t.display->0))
            } else {
                None
            },
        ),
    ]
}

/// The members of a thinking configuration that are kept as data.
pub open spec fn thinking_noted(t: ThinkingConfigV) -> FieldsV {
    let manual = t.kind == "enabled"@;
    seq![
        ("type"@, if manual { Some(JsonV::Str("enabled"@)) } else { None }),
        (
            "budget_tokens"@,
            match t.budget_tokens {
                Some(b) => if manual { Some(json_int(b as int)) } else { None },
                None => None,
            },
        ),
        (
            "display"@,
            match t.display {
                Some(d) => if t.kind != "disabled"@ && known_display(t.display) { None } else { Some(JsonV::Str(d)) },
                None => None,
            },
        ),
    ]
}

/// The data of a thinking configuration.
pub open spec fn thinking_rest(t: ThinkingConfigV) -> ObjV {
    put_all(thinking_noted(t), 3) + deduped(t.extra)
}

/// The value of a thinking configuration of a known type.
pub open spec fn thinking_object(t: ThinkingConfigV) -> ObjV {
    body_of(thinking_base(t), thinking_noted(t), deduped(t.extra))
}

proof fn thinking_is_sound(t: ThinkingConfigV)
    requires
        avoids(t.extra, thinking_config_keys()),
    ensures
        sound(thinking_base(t), thinking_noted(t), deduped(t.extra), thinking_config_keys()),
{
    field_names();
    let known = thinking_config_keys();
    assert(known[0] == "type"@ && known[1] == "budget_tokens"@ && known[2] == "display"@);
    deduped_is_sound(t.extra, known);
    let l = thinking_base(t);
    let nl = thinking_noted(t);
    assert forall|i: int| 0 <= i < l.len() implies known.contains((#[trigger] l[i]).0) by {
        assert(l[i].0 == known[2 * i]);
    }
    assert forall|i: int| 0 <= i < nl.len() implies known.contains((#[trigger] nl[i]).0) by {
        assert(nl[i].0 == known[i]);
    }
}

/// A thinking configuration of a known type in its canonical form keeps it.
pub proof fn thinking_settles(t: ThinkingConfigV)
    requires
        known_thinking(t),
        avoids(t.extra, thinking_config_keys()),
    ensures
        match decode_thinking_config(JsonV::Object(thinking_object(t))) {
            Ok(q) => {
                &&& q.kind == t.kind
                &&& q.display == t.display
                &&& thinking_object(q) == thinking_object(t)
                &&& avoids(q.extra, thinking_config_keys())
            },
            Err(_) => false,
        },
{
    field_names();
    thinking_kinds();
    let known = thinking_config_keys();
    assert(known[0] == "type"@ && known[1] == "budget_tokens"@ && known[2] == "display"@);
    let l = thinking_base(t);
    let nl = thinking_noted(t);
    let x = deduped(t.extra);
    thinking_is_sound(t);
    body_is_assembled(l, nl, x, known);
    put_fields_are_read(l, 2, 0);
    put_fields_are_read(l, 2, 1);
    put_fields_are_read(nl, 3, 0);
    put_fields_are_read(nl, 3, 1);
    put_fields_are_read(nl, 3, 2);
    no_field_is_read(l, "budget_tokens"@);
    assert(known.contains("type"@) && known.contains("budget_tokens"@) && known.contains("display"@));
    let body = thinking_object(t);
    assert(obj_get(body, "type"@) == combined(l[0].1, nl[0].1));
    assert(obj_get(body, "budget_tokens"@) == nl[1].1);
    assert(obj_get(body, "display"@) == combined(l[1].1, nl[2].1));
    let q = decode_thinking_config(JsonV::Object(body))->Ok_0;
    assert(q.extra == swept(x));
    assert(q.kind == t.kind);
    assert(q.display == t.display);
    assert(thinking_base(q) =~= l);
    assert(thinking_noted(q) =~= nl);
    unknown_avoids(body, known, body.len());
    thinking_is_sound(q);
    swept_is_deduped(x);
    bodies_agree(l, nl, x, l, nl, deduped(q.extra), known);
}

spec fn thinking_head(t: ThinkingConfigV) -> FieldsV {
    seq![
        ("type"@, Some(JsonV::Str(t.kind))),
        (
            "budget_tokens"@,
            match t.budget_tokens {
                Some(x) => Some(json_int(x as int)),
                None => None,
            },
        ),
        (
            "display"@,
            match t.display {
                Some(x) => Some(JsonV::Str(x)),
                None => None,
            },
        ),
    ]
}

/// A thinking configuration of an unknown type stays whole.
pub proof fn unknown_thinking_settles(t: ThinkingConfigV)
    requires
        avoids(t.extra, thinking_config_keys()),
    ensures
        match combined(None, Some(encode_thinking_config(t))) {
            Some(j) => !(j is Null) && match decode_thinking_config(j) {
                Ok(q) => {
                    &&& q.kind == t.kind
                    &&& combined(None, Some(encode_thinking_config(q))) == Some(j)
                    &&& avoids(q.extra, thinking_config_keys())
                },
                Err(_) => false,
            },
            None => false,
        },
        !(encode_thinking_config(t) is Null),
{
    field_names();
    let none = Seq::<(Seq<char>, JsonV)>::empty();
    let known = thinking_config_keys();
    assert(known[0] == "type"@ && known[1] == "budget_tokens"@ && known[2] == "display"@);
    let l = thinking_head(t);
    let h = put_all(l, 3);
    assert forall|i: int| 0 <= i < l.len() implies known.contains((#[trigger] l[i]).0) by {
        assert(l[i].0 == known[i]);
    }
    encoded_whole(l, t.extra, known);
    assert(h == put_if(put_all(l, 2), l[2].0, l[2].1));
    assert(put_all(l, 2) == put_if(put_all(l, 1), l[1].0, l[1].1));
    assert(put_all(l, 1) == put_if(put_all(l, 0), l[0].0, l[0].1));
    assert(encode_thinking_config(t) == JsonV::Object(extended(h, t.extra)));
    let x = swept(extended(none, t.extra));
    put_fields_are_read(l, 3, 0);
    put_fields_are_read(l, 3, 1);
    put_fields_are_read(l, 3, 2);
    assert(known.contains("type"@) && known.contains("budget_tokens"@) && known.contains("display"@));
    let j = JsonV::Object(h + x);
    let q = decode_thinking_config(j)->Ok_0;
    assert(q.kind == t.kind && q.budget_tokens == t.budget_tokens && q.display == t.display && q.extra == x);
    assert(thinking_head(q) =~= l);
    assert(encode_thinking_config(q) == JsonV::Object(extended(h, x)));
    unknown_avoids(h + x, known, (h + x).len());
}

/// A structured-output format of a known type: a schema.
pub open spec fn known_format(f: OutputFormatConfigV) -> bool {
    f.kind == "json_schema"@ && f.schema is Some
}

/// The setting that an output format stands for.
pub open spec fn format_of(f: Option<OutputFormatConfigV>) -> Option<OutputFormatV> {
    match f {
        Some(f) => if known_format(f) {
            Some(OutputFormatV::JsonSchema { name: None, description: None, schema: f.schema->0, strict: None })
        } else {
            None
        },
        None => None,
    }
}

/// The data of an output format: what a schema does not model, or all of an
/// unknown type.
pub open spec fn format_data(f: Option<OutputFormatConfigV>) -> FieldsV {
    seq![
        (
            "format"@,
            match f {
                Some(f) => if known_format(f) {
                    some_object(deduped(f.extra))
                } else {
                    Some(encode_output_format_config(f))
                },
                None => None,
            },
        ),
    ]
}

/// An output format whose unmodeled members are apart, and whose schema is no
/// `null`.
pub open spec fn format_apart(f: Option<OutputFormatConfigV>) -> bool {
    match f {
        Some(f) => avoids(f.extra, output_format_config_keys()) && f.schema != Some(JsonV::Null),
        None => true,
    }
}

/// The field and the data of a format, combined.
pub open spec fn format_value(f: Option<OutputFormatConfigV>) -> Option<JsonV> {
    combined(output_list(None, format_of(f))[1].1, format_data(f)[0].1)
}

/// An output format in its canonical form keeps it.
proof fn format_settles(f: OutputFormatConfigV)
    requires
        format_apart(Some(f)),
    ensures
        match format_value(Some(f)) {
            Some(j) => !(j is Null) && match decode_output_format_config(j) {
                Ok(q) => {
                    &&& format_apart(Some(q))
                    &&& known_format(q) == known_format(f)
                    &&& format_value(Some(q)) == Some(j)
                },
                Err(_) => false,
            },
            None => false,
        },
        format_data(Some(f))[0].1 != Some(JsonV::Null),
{
    field_names();
    let none = Seq::<(Seq<char>, JsonV)>::empty();
    let known = output_format_config_keys();
    assert(known[0] == "type"@ && known[1] == "schema"@);
    if known_format(f) {
        let schema = f.schema->0;
        let h = format_members(schema);
        let x = deduped(f.extra);
        deduped_is_sound(f.extra, known);
        assert(within(h, known));
        known_are_apart(h, x, known);
        apart_data_is_appended(h, x, x.len());
        let r = swept(x);
        if x.len() == 0 {
            assert(x =~= none);
            assert(swept(none) == none);
            assert(h + r =~= h);
        }
        let j = JsonV::Object(h + r);
        assert(object2("type"@, JsonV::Str("json_schema"@), "schema"@, schema) == JsonV::Object(h));
        assert(format_value(Some(f)) == Some(j));
        there(h, r, "type"@, 0);
        there(h, r, "schema"@, 1);
        unmodeled_members_are_kept(h, r, known);
        let q = decode_output_format_config(j)->Ok_0;
        assert(q.kind == f.kind && q.schema == f.schema && q.extra == r);
        swept_is_deduped(x);
        known_are_apart(h, r, known);
        apart_data_is_appended(h, r, r.len());
        if r.len() == 0 {
            assert(r =~= none);
        }
    } else {
        let l = seq![("type"@, Some(JsonV::Str(f.kind))), ("schema"@, f.schema)];
        let h = put_all(l, 2);
        assert(h == put_if(put_all(l, 1), l[1].0, l[1].1));
        assert(put_all(l, 1) == put_if(put_all(l, 0), l[0].0, l[0].1));
        absent_is_not_read(none, "type"@, JsonV::Str(f.kind));
        let o1 = none.push(("type"@, JsonV::Str(f.kind)));
        let schema = match f.schema {
            Some(v) => v,
            None => JsonV::Bool(true),
        };
        absent_is_not_read(o1, "schema"@, schema);
        assert(encode_output_format_config(f) == JsonV::Object(extended(h, f.extra)));
        assert forall|i: int| 0 <= i < l.len() implies known.contains((#[trigger] l[i]).0) by {
            assert(l[i].0 == known[i]);
        }
        put_fields_are_known(l, 2, known);
        known_are_apart(h, f.extra, known);
        extended_behind(h, f.extra, f.extra.len());
        extended_avoids(f.extra, known, f.extra.len());
        let y = extended(none, f.extra);
        // Sweeping goes through the head, then through the rest.
        let s = swept(h);
        let sl = seq![("type"@, Some(JsonV::Str(f.kind))), ("schema"@, combined(None, f.schema))];
        assert(merge_members(none, h, 0) == none);
        assert(merge_members(none, h, 1) =~= o1) by {
            assert(h[0] == ("type"@, JsonV::Str(f.kind)));
            absent_is_not_read(none, "type"@, JsonV::Str(f.kind));
        }
        let swept_schema = match combined(None, f.schema) {
            Some(v) => v,
            None => JsonV::Bool(true),
        };
        absent_is_not_read(o1, "schema"@, swept_schema);
        if f.schema is Some {
            assert(h[1] == ("schema"@, f.schema->0));
            assert(s == o1.push(("schema"@, swept_schema)));
        } else {
            assert(s == o1);
        }
        assert(put_all(sl, 2) == put_if(put_all(sl, 1), sl[1].0, sl[1].1));
        assert(put_all(sl, 1) == put_if(put_all(sl, 0), sl[0].0, sl[0].1));
        assert(s == put_all(sl, 2));
        assert forall|i: int| 0 <= i < sl.len() implies known.contains((#[trigger] sl[i]).0) by {
            assert(sl[i].0 == known[i]);
        }
        put_fields_are_known(sl, 2, known);
        swept_data_is_clean(h);
        merges_in_turn(none, h, y, y.len());
        known_are_apart(s, y, known);
        apart_data_is_appended(s, y, y.len());
        let x = swept(y);
        let j = JsonV::Object(s + x);
        assert(format_value(Some(f)) == Some(j));
        swept_data_is_clean(y);
        swept_data_avoids(y, known);
        put_fields_are_read(sl, 2, 0);
        put_fields_are_read(sl, 2, 1);
        assert(known.contains("type"@) && known.contains("schema"@));
        front_members_are_read(s, x, known, "type"@);
        front_members_are_read(s, x, known, "schema"@);
        unmodeled_members_are_kept(s, x, known);
        let q = decode_output_format_config(j)->Ok_0;
        assert(q.kind == f.kind && q.schema == combined(None, f.schema) && q.extra == x);
        known_are_apart(s, x, known);
        extended_behind(s, x, x.len());
        extended_nothing(x);
        let ql = seq![("type"@, Some(JsonV::Str(q.kind))), ("schema"@, q.schema)];
        assert(ql =~= sl);
        assert(encode_output_format_config(q) == JsonV::Object(extended(s, x)));
        split_sweep(s, x, known);
        clean_data_is_swept(s);
        swept_data_stays(y);
    }
}

/// The data of an output configuration.
pub open spec fn config_data(f: Option<OutputFormatConfigV>, extra: ObjV) -> ObjV {
    put_all(format_data(f), 1) + deduped(extra)
}

/// An output configuration in its canonical form keeps it.
pub proof fn config_settles(effort: Option<Seq<char>>, f: Option<OutputFormatConfigV>, extra: ObjV)
    requires
        format_apart(f),
        avoids(extra, output_config_keys()),
    ensures
        ({
            let l = output_list(effort, format_of(f));
            let v = combined(some_object(put_all(l, 2)), some_object(config_data(f, extra)));
            match v {
                Some(j) => !(j is Null) && match decode_output_config(j) {
                    Ok(q) => {
                        let l2 = output_list(effort, format_of(q.format));
                        &&& q.effort == effort
                        &&& format_apart(q.format)
                        &&& avoids(q.extra, output_config_keys())
                        &&& (put_all(l2, 2).len() > 0) == (put_all(l, 2).len() > 0)
                        &&& combined(some_object(put_all(l2, 2)), some_object(config_data(q.format, q.extra))) == v
                    },
                    Err(_) => false,
                },
                None => effort is None && format_of(f) is None && config_data(f, extra).len() == 0 && put_all(l, 2).len()
                    == 0,
            }
        }),
{
    field_names();
    let none = Seq::<(Seq<char>, JsonV)>::empty();
    let known = output_config_keys();
    assert(known[0] == "effort"@ && known[1] == "format"@);
    let l = output_list(effort, format_of(f));
    let nl = format_data(f);
    let x = deduped(extra);
    deduped_is_sound(extra, known);
    if let Some(g) = f {
        format_settles(g);
    }
    output_is_sound(effort, f, extra);
    body_is_assembled(l, nl, x, known);
    put_fields_are_read(l, 2, 0);
    put_fields_are_read(l, 2, 1);
    put_fields_are_read(nl, 1, 0);
    no_field_is_read(nl, "effort"@);
    assert(known.contains("effort"@) && known.contains("format"@));
    let body = body_of(l, nl, x);
    let t = put_all(l, 2);
    let d = config_data(f, extra);
    config_is_body(effort, f, extra);
    assert(obj_get(body, "effort"@) == l[0].1);
    assert(obj_get(body, "format"@) == format_value(f));
    if body.len() > 0 {
        let j = JsonV::Object(body);
        let q = decode_output_config(j)->Ok_0;
        assert(q.extra == swept(x));
        assert(q.effort == effort);
        match f {
            Some(g) => {
                assert(q.format is Some && known_format(q.format->0) == known_format(g));
                assert(format_value(q.format) == format_value(f));
            },
            None => {
                assert(q.format is None);
            },
        }
        let l2 = output_list(effort, format_of(q.format));
        let nl2 = format_data(q.format);
        if let Some(g) = q.format {
            format_settles(g);
        }
        output_is_sound(effort, q.format, q.extra);
        swept_is_deduped(x);
        put_fields_are_read(l2, 2, 0);
        put_fields_are_read(l2, 2, 1);
        put_fields_are_read(nl2, 1, 0);
        no_field_is_read(nl2, "effort"@);
        bodies_agree(l, nl, x, l2, nl2, deduped(q.extra), known);
        config_is_body(effort, q.format, q.extra);
        same_size(l, l2);
    } else {
        assert(t.len() == 0 && d.len() == 0);
        absent_is_not_read(t, "effort"@, JsonV::Null);
        absent_is_not_read(t, "format"@, JsonV::Null);
    }
}

proof fn same_size(l: FieldsV, l2: FieldsV)
    requires
        l.len() == 2,
        l2.len() == 2,
        l[0] == l2[0],
        (l[1].1 is Some) == (l2[1].1 is Some),
    ensures
        (put_all(l, 2).len() > 0) == (put_all(l2, 2).len() > 0),
{
    broadcast use obj_index_props;
    reveal(obj_set);
    assert(put_all(l, 2) == put_if(put_all(l, 1), l[1].0, l[1].1));
    assert(put_all(l2, 2) == put_if(put_all(l2, 1), l2[1].0, l2[1].1));
    assert(put_all(l, 1) == put_if(put_all(l, 0), l[0].0, l[0].1));
    assert(put_all(l2, 1) == put_if(put_all(l2, 0), l2[0].0, l2[0].1));
}

proof fn output_is_sound(effort: Option<Seq<char>>, f: Option<OutputFormatConfigV>, extra: ObjV)
    requires
        format_apart(f),
        avoids(extra, output_config_keys()),
    ensures
        sound(output_list(effort, format_of(f)), format_data(f), deduped(extra), output_config_keys()),
{
    field_names();
    let known = output_config_keys();
    assert(known[0] == "effort"@ && known[1] == "format"@);
    let l = output_list(effort, format_of(f));
    let nl = format_data(f);
    deduped_is_sound(extra, known);
    if let Some(g) = f {
        format_settles(g);
    }
    assert forall|i: int| 0 <= i < l.len() implies known.contains((#[trigger] l[i]).0) by {
        assert(l[i].0 == known[i]);
    }
    assert(nl[0].0 == known[1]);
}

/// The field and the data of an output configuration make up its body, where
/// there is one.
proof fn config_is_body(effort: Option<Seq<char>>, f: Option<OutputFormatConfigV>, extra: ObjV)
    requires
        format_apart(f),
        avoids(extra, output_config_keys()),
    ensures
        ({
            let l = output_list(effort, format_of(f));
            let body = body_of(l, format_data(f), deduped(extra));
            let d = config_data(f, extra);
            &&& combined(some_object(put_all(l, 2)), some_object(d)) == some_object(body)
            &&& body.len() == 0 ==> put_all(l, 2).len() == 0 && d.len() == 0
        }),
{
    let none = Seq::<(Seq<char>, JsonV)>::empty();
    let known = output_config_keys();
    assert(known[0] == "effort"@ && known[1] == "format"@);
    let l = output_list(effort, format_of(f));
    let nl = format_data(f);
    let x = deduped(extra);
    output_is_sound(effort, f, extra);
    body_is_assembled(l, nl, x, known);
    data_is_sound(l, nl, x, known);
    let t = put_all(l, 2);
    let d = config_data(f, extra);
    let body = body_of(l, nl, x);
    nothing_null(x);
    swept_data_is_there(x);
    put_fields_are_read(l, 2, 0);
    put_fields_are_read(l, 2, 1);
    put_fields_are_read(nl, 1, 0);
    assert(known.contains("effort"@) && known.contains("format"@));
    no_field_is_read(nl, "effort"@);
    assert(put_all(nl, 1) == put_if(put_all(nl, 0), nl[0].0, nl[0].1));
    if body.len() == 0 {
        absent_is_not_read(body, "effort"@, JsonV::Null);
        absent_is_not_read(body, "format"@, JsonV::Null);
        assert(put_all(l, 2) == put_if(put_all(l, 1), l[1].0, l[1].1));
        assert(put_all(l, 1) == put_if(put_all(l, 0), l[0].0, l[0].1));
        field_names();
        assert(swept(x).len() == 0);
        assert(t.len() == 0);
        assert(d.len() == 0);
    }
    if d.len() == 0 {
        assert(d =~= none);
        assert(body == t);
    }
    if t.len() == 0 {
        assert(t =~= none);
    }
}

/// An effort tier is named as it was read, and read as it is named.
pub proof fn efforts_are_named()
    ensures
        forall|x: Seq<char>| effort_name(#[trigger] effort_named(x)) == x,
{
}

} // verus!
