//! Laws: content parts in their canonical form. What a part becomes on its way
//! through the IR stays as it is from then on.

use vstd::prelude::*;
use crate::assembly::{change_in_front, combined, no_nulls};
use crate::convert::ConversionWarningV;
use crate::decode::{unknown, unknown_upto};
use crate::format::{data_url_is_made_up, OPENAI_CHAT_COMPLETIONS};
use crate::formats::anthropic_messages::canonical_blocks::{members_left, removal_leaves};
use crate::formats::anthropic_messages::canonical_config::nothing_null;
use crate::formats::anthropic_messages::canonical_system::non_null_is_drawn;
use crate::formats::openai_chat_completions::assistant::{carried_fields, content_step, is_refusal, part_patch, MESSAGE_KEY, REFUSAL_KEY};
use crate::formats::openai_chat_completions::content::{image_url, input_step, omerged, output_step, text_part};
use crate::formats::openai_chat_completions::parse_parts::{refusal_block, explicit_breakpoint, image_of, nested, opaque, output_block, own_extra, part_block, part_type, source_of};
use crate::formats::openai_chat_completions::round_trip::part_names;
use crate::formats::openai_chat_completions::round_trip_calls::content_names;
use crate::formats::openai_chat_completions::types;
use crate::ir::{text_block, text_output, extra_has, extra_ns, non_null, ContentBlockV, ToolOutputBlockV};
use crate::json::{obj_get, obj_index, obj_index_props, obj_remove, obj_set, obj_wf, put_if, JsonV, ObjV};
use crate::json_laws::{merge_keeps_other_members, set_keeps_other_members, set_member_is_read};
use crate::merge::{merge_members, merged, obj_part};
use crate::namespaces::{absent, absent_is_not_read, avoids, clean, first_named_is_read, front_members_are_read, members_behind_are_read, modeled_members_are_known, nothing_is_dropped, removing_nothing, there, unknown_avoids, unmodeled_members_add_up, unmodeled_members_are_kept, unread_is_absent, within};
use crate::sink::{empty_sink, SinkV};
use crate::sweep::{apart_data_is_appended, clean_data_is_swept, clean_member_by_member, clean_value, fields_are_merged, kept, kept_fields_avoid, kept_fields_stay, known_are_apart, non_null_avoids, swept, swept_data_avoids, swept_data_is_clean, swept_data_is_there, swept_data_lacks, swept_data_stays};

verus! {

/// What a part is read as, wherever it stands.
pub open spec fn read_part(part: JsonV, input: bool) -> ContentBlockV {
    part_block(part, Seq::empty(), input, Seq::empty()).0
}

/// Reading a part depends on nothing else.
pub proof fn part_is_read_anywhere(part: JsonV, ptr: Seq<char>, input: bool, ws: Seq<ConversionWarningV>)
    ensures
        part_block(part, ptr, input, ws).0 == read_part(part, input),
{
}

/// What an input block is written as, where it has a part.
pub open spec fn input_value(b: ContentBlockV) -> Option<JsonV> {
    match input_step((Seq::empty(), empty_sink()), b, 0, Seq::empty(), false) {
        Ok((parts, _)) => if parts.len() == 1 { Some(parts[0]) } else { None },
        Err(_) => None,
    }
}

/// What an assistant block is written as.
pub open spec fn answer_value(b: ContentBlockV) -> JsonV {
    content_step((Seq::empty(), empty_sink()), b, Seq::empty()).0[0]
}

/// What a block of tool output is written as.
pub open spec fn output_value(b: ToolOutputBlockV) -> JsonV {
    output_step((Seq::empty(), empty_sink()), b, Seq::empty()).0[0]
}

/// A block that was read from an input part is written wherever images may
/// stand, and elsewhere unless it is one.
pub proof fn input_is_written_anywhere(
    st: (Seq<JsonV>, SinkV),
    part: JsonV,
    bi: nat,
    ptr: Seq<char>,
    system: bool,
)
    ensures
        ({
            let b = read_part(part, true);
            &&& input_value(b) is Some
            &&& b is Text || b is Image || b is Opaque
            &&& b is Image && system || match input_step(st, b, bi, ptr, system) {
                Ok((parts, _)) => parts == st.0.push(input_value(b)->0),
                Err(_) => false,
            }
        }),
{
}

/// A block of assistant content is written as its value.
pub proof fn answer_is_written_anywhere(st: (Seq<JsonV>, SinkV), b: ContentBlockV, ptr: Seq<char>)
    requires
        b is Text || b is Opaque && b->Opaque_format == OPENAI_CHAT_COMPLETIONS@,
    ensures
        content_step(st, b, ptr).0 == st.0.push(answer_value(b)),
{
}

/// A block that was read from tool output is written as its value.
pub proof fn output_is_written_anywhere(st: (Seq<JsonV>, SinkV), part: JsonV, ptr: Seq<char>)
    ensures
        output_step(st, output_block(part), ptr).0 == st.0.push(output_value(output_block(part))),
{
}

/// A breakpoint in its canonical form.
pub open spec fn settled_hint(v: JsonV) -> JsonV {
    if v == explicit_breakpoint() {
        v
    } else {
        combined(Some(explicit_breakpoint()), Some(v))->0
    }
}

/// The breakpoint keeps its canonical form: none that is an object takes its
/// own mode away.
pub open spec fn steady_hint(v: JsonV) -> bool {
    settled_hint(settled_hint(v)) == settled_hint(v)
}

pub open spec fn breakpoint_key() -> Seq<char> {
    "prompt_cache_breakpoint"@
}

/// A breakpoint that is kept verbatim comes last.
proof fn breakpoint_comes_last(x: ObjV, v: Option<JsonV>)
    requires
        absent(x, breakpoint_key()),
        v != Some(JsonV::Null),
    ensures
        kept(put_if(x, breakpoint_key(), v)) == match v {
            Some(w) => kept(x).push((breakpoint_key(), combined(None, Some(w))->0)),
            None => kept(x),
        },
        non_null(put_if(x, breakpoint_key(), v), put_if(x, breakpoint_key(), v).len()) == match v {
            Some(w) => non_null(x, x.len()).push((breakpoint_key(), w)),
            None => non_null(x, x.len()),
        },
{
    let k = breakpoint_key();
    if let Some(w) = v {
        absent_is_not_read(x, k, w);
        let f = x.push((k, w));
        non_null_front(x, (k, w), x.len());
        let p = non_null(x, x.len());
        assert(non_null(f, f.len()) == p.push((k, w)));
        member_comes_last(p, k, w);
        non_null_is_without(x, k);
    }
}

pub proof fn non_null_front(x: ObjV, m: (Seq<char>, JsonV), n: nat)
    requires
        n <= x.len(),
    ensures
        non_null(x.push(m), n) == non_null(x, n),
    decreases n,
{
    if n > 0 {
        non_null_front(x, m, (n - 1) as nat);
    }
}

pub proof fn non_null_is_without(x: ObjV, k: Seq<char>)
    requires
        absent(x, k),
    ensures
        absent(non_null(x, x.len()), k),
{
    assert(avoids(x, seq![k])) by {
        assert forall|j: int| 0 <= j < x.len() implies !seq![k].contains((#[trigger] x[j]).0) by {}
    }
    non_null_avoids(x, seq![k]);
    let p = non_null(x, x.len());
    assert forall|j: int| 0 <= j < p.len() implies (#[trigger] p[j]).0 != k by {
        assert(seq![k][0] == k);
        assert(!seq![k].contains(p[j].0));
    }
}

/// A last member that is not `null` stays last.
proof fn member_comes_last(p: ObjV, k: Seq<char>, w: JsonV)
    requires
        !(w is Null),
    ensures
        absent(p, k) ==> swept(p.push((k, w))) == swept(p).push((k, combined(None, Some(w))->0)),
{
    let q = p.push((k, w));
    let none = Seq::<(Seq<char>, JsonV)>::empty();
    merge_front_members(none, p, (k, w), p.len());
    if absent(p, k) {
        swept_data_lacks(p, k);
        absent_is_not_read(swept(p), k, combined(None, Some(w))->0);
        assert(obj_part(None) == none);
    }
}

pub proof fn merge_front_members(t: ObjV, p: ObjV, x: (Seq<char>, JsonV), n: nat)
    requires
        n <= p.len(),
    ensures
        merge_members(t, p.push(x), n) == merge_members(t, p, n),
    decreases n,
{
    if n > 0 {
        merge_front_members(t, p, x, (n - 1) as nat);
        assert(p.push(x)[n - 1] == p[n - 1]);
    }
}

/// The members of a text part.
pub open spec fn text_members(text: Seq<char>) -> ObjV {
    seq![("type"@, JsonV::Str("text"@)), ("text"@, JsonV::Str(text))]
}

proof fn text_is_listed(text: Seq<char>)
    ensures
        text_part(text) == JsonV::Object(text_members(text)),
        within(text_members(text), types::text_part_keys()),
        text_members(text)[0].0 == "type"@,
{
    part_names();
    let known = types::text_part_keys();
    assert(known[0] == "type"@ && known[1] == "text"@);
}

/// What a text part with a verbatim breakpoint is read as.
proof fn text_part_is_read(text: Seq<char>, x: ObjV, v: Option<JsonV>)
    requires
        avoids(x, types::text_part_keys()),
        v != Some(JsonV::Null),
    ensures
        ({
            let u = JsonV::Object(text_members(text) + kept(put_if(x, breakpoint_key(), v)));
            &&& part_type(u) == Some("text"@)
            &&& types::decode_text_part(u) == Ok::<types::TextPartV, Seq<char>>(
                types::TextPartV {
                    part_type: Some("text"@),
                    text,
                    prompt_cache_breakpoint: combined(None, v),
                    extra: kept(x),
                },
            )
        }),
{
    part_names();
    let known = types::text_part_keys();
    assert(known[0] == "type"@ && known[1] == "text"@ && known[2] == breakpoint_key());
    text_is_listed(text);
    let t = text_members(text);
    avoided_is_absent(x, known, breakpoint_key());
    breakpoint_comes_last(x, v);
    kept_fields_avoid(x, known);
    let r = kept(put_if(x, breakpoint_key(), v));
    let o = t + r;
    there(t, r, "type"@, 0);
    there(t, r, "text"@, 1);
    match v {
        Some(w) => {
            let m = seq![(breakpoint_key(), combined(None, Some(w))->0)];
            assert(r =~= kept(x) + m);
            assert(o =~= (t + kept(x)) + m);
            unmodeled_members_are_kept(t, kept(x), known);
            unmodeled_members_add_up(t + kept(x), m, known);
            assert(within(m, known));
            modeled_members_are_known(m, known);
            assert(kept(x) + Seq::<(Seq<char>, JsonV)>::empty() =~= kept(x));
            let a = t + kept(x);
            assert(absent(a, breakpoint_key())) by {
                avoided_is_absent(kept(x), known, breakpoint_key());
                assert forall|j: int| 0 <= j < a.len() implies (#[trigger] a[j]).0 != breakpoint_key() by {
                    if j >= t.len() {
                        assert(a[j] == kept(x)[j - t.len()]);
                    }
                }
            }
            members_behind_are_read(a, m, breakpoint_key());
            first_named_is_read(m, breakpoint_key(), 0);
        },
        None => {
            unmodeled_members_are_kept(t, kept(x), known);
            front_members_are_read(t, kept(x), known, breakpoint_key());
            absent_is_not_read(t, breakpoint_key(), JsonV::Null);
        },
    }
}

pub proof fn avoided_is_absent(x: ObjV, known: Seq<Seq<char>>, k: Seq<char>)
    requires
        avoids(x, known),
        known.contains(k),
    ensures
        absent(x, k),
{
    assert forall|j: int| 0 <= j < x.len() implies (#[trigger] x[j]).0 != k by {
        assert(!known.contains(x[j].0));
    }
}

/// A member that was swept stays.
pub proof fn combined_stays(v: Option<JsonV>)
    requires
        v != Some(JsonV::Null),
    ensures
        combined(None, combined(None, v)) == combined(None, v),
        combined(None, v) != Some(JsonV::Null),
{
    match v {
        Some(JsonV::Object(q)) => {
            swept_data_stays(q);
            assert(obj_part(None) == Seq::<(Seq<char>, JsonV)>::empty());
        },
        _ => {},
    }
}

/// Text parts with a verbatim breakpoint stay as they are once written.
proof fn verbatim_breakpoint_stays(x: ObjV, v: Option<JsonV>)
    requires
        avoids(x, types::text_part_keys()),
        v != Some(JsonV::Null),
    ensures
        kept(put_if(kept(x), breakpoint_key(), combined(None, v))) == kept(put_if(x, breakpoint_key(), v)),
{
    let known = types::text_part_keys();
    assert(known[2] == breakpoint_key());
    avoided_is_absent(x, known, breakpoint_key());
    kept_fields_avoid(x, known);
    avoided_is_absent(kept(x), known, breakpoint_key());
    combined_stays(v);
    kept_fields_stay(x);
    breakpoint_comes_last(x, v);
    breakpoint_comes_last(kept(x), combined(None, v));
}

/// A part of tool output stays as it was first written.
pub proof fn output_part_settles(part: JsonV)
    ensures
        ({
            let u = output_value(output_block(part));
            &&& output_value(output_block(u)) == u
            &&& (output_block(u) is Text) == (output_block(part) is Text)
            &&& output_block(part) is Text ==> output_block(u)->Text_text == output_block(part)->Text_text && extra_has(
                output_block(u)->Text_extra,
                OPENAI_CHAT_COMPLETIONS@,
            ) == extra_has(output_block(part)->Text_extra, OPENAI_CHAT_COMPLETIONS@)
        }),
{
    if output_block(part) is Text {
        let o = part->Object_0;
        let w = types::decode_text_part(part)->Ok_0;
        let known = types::text_part_keys();
        unknown_avoids(o, known, o.len());
        let f = put_if(w.extra, breakpoint_key(), w.prompt_cache_breakpoint);
        text_is_written(w.text, w.extra, w.prompt_cache_breakpoint);
        text_part_is_read(w.text, w.extra, w.prompt_cache_breakpoint);
        combined_stays(w.prompt_cache_breakpoint);
        kept_fields_avoid(w.extra, known);
        text_is_written(w.text, kept(w.extra), combined(None, w.prompt_cache_breakpoint));
        verbatim_breakpoint_stays(w.extra, w.prompt_cache_breakpoint);
        fields_are_merged(OPENAI_CHAT_COMPLETIONS@, Seq::empty(), f);
        fields_are_merged(
            OPENAI_CHAT_COMPLETIONS@,
            Seq::empty(),
            put_if(kept(w.extra), breakpoint_key(), combined(None, w.prompt_cache_breakpoint)),
        );
        swept_data_is_there(f);
    }
}

/// Text with provider data beside its modeled members.
proof fn text_is_written(text: Seq<char>, x: ObjV, v: Option<JsonV>)
    requires
        avoids(x, types::text_part_keys()),
        v != Some(JsonV::Null),
    ensures
        ({
            let f = put_if(x, breakpoint_key(), v);
            omerged(own_extra(f), text_part(text)) == JsonV::Object(text_members(text) + kept(f))
        }),
{
    part_names();
    let known = types::text_part_keys();
    assert(known[0] == "type"@ && known[1] == "text"@ && known[2] == breakpoint_key());
    text_is_listed(text);
    let t = text_members(text);
    let f = put_if(x, breakpoint_key(), v);
    let p = non_null(f, f.len());
    fields_are_merged(OPENAI_CHAT_COMPLETIONS@, t, f);
    avoided_is_absent(x, known, breakpoint_key());
    breakpoint_comes_last(x, v);
    non_null_avoids(x, known);
    known_are_apart(t, non_null(x, x.len()), known);
    assert forall|i: int| 0 <= i < p.len() implies absent(t, (#[trigger] p[i]).0) by {
        if i < non_null(x, x.len()).len() {
            assert(p[i] == non_null(x, x.len())[i]);
        }
    }
    apart_data_is_appended(t, p, p.len());
}

/// Provider data with a breakpoint of its own goes to the fields in front.
proof fn hint_is_merged(t: ObjV, x: ObjV, known: Seq<Seq<char>>, v: JsonV, i: int)
    requires
        within(t, known),
        avoids(x, known),
        known.contains(breakpoint_key()),
        0 <= i < t.len(),
        t[i].0 == breakpoint_key(),
        forall|j: int| 0 <= j < i ==> (#[trigger] t[j]).0 != breakpoint_key(),
        !(v is Null),
    ensures
        ({
            let f = put_if(x, breakpoint_key(), Some(v));
            merged(t, non_null(f, f.len())) == t.update(
                i,
                (breakpoint_key(), combined(Some(t[i].1), Some(v))->0),
            ) + kept(x)
        }),
{
    broadcast use obj_index_props;
    let k = breakpoint_key();
    let p = non_null(x, x.len());
    avoided_is_absent(x, known, k);
    breakpoint_comes_last(x, Some(v));
    non_null_avoids(x, known);
    known_are_apart(t, p, known);
    apart_data_is_appended(t, p, p.len());
    merge_front_members(t, p, (k, v), p.len());
    first_named_is_read(t, k, i);
    let r = combined(Some(t[i].1), Some(v))->0;
    change_in_front(t, kept(x), k, r);
    assert(obj_set(t, k, r) == t.update(i, (k, r))) by {
        reveal(obj_set);
    }
}

/// The members of an input part with a breakpoint.
pub open spec fn hinted_members(t: ObjV, v: Option<JsonV>) -> ObjV {
    match v {
        Some(w) => t.push((breakpoint_key(), w)),
        None => t,
    }
}

/// What an input part of members `t` becomes: the breakpoint settles in front
/// of the unmodeled members.
proof fn hinted_part_is_written(t: ObjV, x: ObjV, known: Seq<Seq<char>>, v: Option<JsonV>)
    requires
        within(t, known),
        avoids(x, known),
        known.contains(breakpoint_key()),
        absent(t, breakpoint_key()),
        v != Some(JsonV::Null),
    ensures
        ({
            let part = match v {
                Some(_) => obj_set(t, breakpoint_key(), explicit_breakpoint()),
                None => t,
            };
            let rest = match v {
                Some(w) => if w == explicit_breakpoint() { None } else { Some(w) },
                None => None,
            };
            let f = put_if(x, breakpoint_key(), rest);
            let h = match v {
                Some(w) => Some(settled_hint(w)),
                None => None,
            };
            &&& omerged(own_extra(f), JsonV::Object(part)) == JsonV::Object(hinted_members(t, h) + kept(x))
            &&& extra_has(own_extra(f), OPENAI_CHAT_COMPLETIONS@) == (kept(x).len() > 0 || rest is Some)
        }),
{
    let k = breakpoint_key();
    let e = explicit_breakpoint();
    let fmt = OPENAI_CHAT_COMPLETIONS@;
    avoided_is_absent(x, known, k);
    let p = non_null(x, x.len());
    non_null_avoids(x, known);
    match v {
        Some(w) => {
            absent_is_not_read(t, k, e);
            let part = t.push((k, e));
            assert(within(part, known)) by {
                assert forall|j: int| 0 <= j < part.len() implies known.contains((#[trigger] part[j]).0) by {
                    if j < t.len() {
                        assert(part[j] == t[j]);
                    }
                }
            }
            if w == e {
                fields_are_merged(fmt, part, x);
                known_are_apart(part, p, known);
                apart_data_is_appended(part, p, p.len());
            } else {
                let f = put_if(x, k, Some(w));
                fields_are_merged(fmt, part, f);
                assert forall|j: int| 0 <= j < t.len() implies (#[trigger] part[j]).0 != k by {
                    assert(part[j] == t[j]);
                }
                hint_is_merged(part, x, known, w, t.len() as int);
                let r = combined(Some(e), Some(w))->0;
                assert(part.update(t.len() as int, (k, r)) =~= t.push((k, r)));
                breakpoint_comes_last(x, Some(w));
            }
        },
        None => {
            fields_are_merged(fmt, t, x);
            known_are_apart(t, p, known);
            apart_data_is_appended(t, p, p.len());
        },
    }
}

/// What an input part of such members is read as.
proof fn hinted_part_is_read(t: ObjV, x: ObjV, known: Seq<Seq<char>>, h: Option<JsonV>)
    requires
        within(t, known),
        avoids(x, known),
        known.contains(breakpoint_key()),
        absent(t, breakpoint_key()),
        h != Some(JsonV::Null),
    ensures
        ({
            let o = hinted_members(t, h) + kept(x);
            &&& forall|k: Seq<char>|
                known.contains(k) && k != breakpoint_key() ==> #[trigger] obj_get(o, k) == obj_get(t, k)
            &&& obj_get(o, breakpoint_key()) == h
            &&& unknown(o, known) == kept(x)
        }),
{
    broadcast use obj_index_props;
    let k = breakpoint_key();
    kept_fields_avoid(x, known);
    let m = hinted_members(t, h);
    let o = m + kept(x);
    assert(within(m, known)) by {
        assert forall|j: int| 0 <= j < m.len() implies known.contains((#[trigger] m[j]).0) by {
            if j < t.len() {
                assert(m[j] == t[j]);
            }
        }
    }
    unmodeled_members_are_kept(m, kept(x), known);
    front_members_are_read(m, kept(x), known, k);
    match h {
        Some(w) => {
            assert forall|j: int| 0 <= j < t.len() implies (#[trigger] m[j]).0 != k by {
                assert(m[j] == t[j]);
            }
            first_named_is_read(m, k, t.len() as int);
        },
        None => {
            absent_is_not_read(t, k, JsonV::Null);
        },
    }
    assert forall|n: Seq<char>| known.contains(n) && n != k implies #[trigger] obj_get(o, n) == obj_get(t, n) by {
        front_members_are_read(m, kept(x), known, n);
        if let Some(w) = h {
            absent_is_not_read(t, k, w);
            set_keeps_other_members(t, k, w, n);
        }
    }
}

/// An input part that keeps its canonical form. One that is a refusal has no
/// text and no breakpoint besides.
pub open spec fn steady_input(part: JsonV) -> bool {
    let t = part_type(part);
    let hint = obj_get(part->Object_0, breakpoint_key());
    if t == Some("text"@) && types::decode_text_part(part) is Ok {
        hint is Some && !(hint->0 is Null) ==> steady_hint(hint->0)
    } else if t == Some("image_url"@) && types::decode_image_part(part) is Ok {
        hint is Some && !(hint->0 is Null) ==> steady_hint(hint->0)
    } else if t == Some("refusal"@) && types::decode_refusal_part(part) is Ok {
        ||| obj_get(part->Object_0, "text"@) is None && hint is None
        ||| {
            let u = input_value(read_part(part, true))->0;
            input_value(read_part(u, true)) == Some(u) && !bare_text(read_part(u, true))
        }
    } else {
        true
    }
}

/// What an input part stays as.
spec fn input_stays(u: JsonV) -> bool {
    input_value(read_part(u, true)) == Some(u)
}

/// A bare text block: it may stand as a string.
pub open spec fn bare_text(b: ContentBlockV) -> bool {
    match b {
        ContentBlockV::Text { text, cache, extra } => cache is None && text.len() > 0 && !extra_has(
            extra,
            OPENAI_CHAT_COMPLETIONS@,
        ),
        _ => false,
    }
}

proof fn settled_hint_is_some(v: JsonV)
    requires
        !(v is Null),
    ensures
        !(settled_hint(v) is Null),
{
}

proof fn input_text_settles(part: JsonV)
    requires
        part_type(part) == Some("text"@),
        types::decode_text_part(part) is Ok,
        steady_input(part),
    ensures
        ({
            let u = input_value(read_part(part, true))->0;
            &&& input_stays(u)
            &&& bare_text(read_part(u, true)) == bare_text(read_part(part, true))
            &&& read_part(u, true) is Text
        }),
{
    part_names();
    let known = types::text_part_keys();
    assert(known[0] == "type"@ && known[1] == "text"@ && known[2] == breakpoint_key());
    let w = types::decode_text_part(part)->Ok_0;
    let o = part->Object_0;
    unknown_avoids(o, known, o.len());
    text_is_listed(w.text);
    let t = text_members(w.text);
    let v = w.prompt_cache_breakpoint;
    hinted_part_is_written(t, w.extra, known, v);
    let h = match v {
        Some(x) => Some(settled_hint(x)),
        None => None,
    };
    if v is Some {
        settled_hint_is_some(v->0);
    }
    let u = JsonV::Object(hinted_members(t, h) + kept(w.extra));
    assert(input_value(read_part(part, true)) == Some(u));
    hinted_part_is_read(t, w.extra, known, h);
    first_named_is_read(t, "type"@, 0);
    first_named_is_read(t, "text"@, 1);
    assert(obj_get(u->Object_0, "type"@) == obj_get(t, "type"@));
    assert(obj_get(u->Object_0, "text"@) == obj_get(t, "text"@));
    let w2 = types::TextPartV {
        part_type: Some("text"@),
        text: w.text,
        prompt_cache_breakpoint: h,
        extra: kept(w.extra),
    };
    assert(types::decode_text_part(u) == Ok::<types::TextPartV, Seq<char>>(w2));
    kept_fields_avoid(w.extra, known);
    kept_fields_stay(w.extra);
    hinted_part_is_written(t, kept(w.extra), known, h);
}

proof fn url_is_restored(url: Seq<char>)
    ensures
        image_url(source_of(url)) == Some(url),
{
    data_url_is_made_up(url);
}

/// The members of an image part.
spec fn image_members(url: ObjV) -> ObjV {
    seq![("type"@, JsonV::Str("image_url"@)), ("image_url"@, JsonV::Object(url))]
}

/// What an image part of an input message becomes.
proof fn image_is_written(url: Seq<char>, i: ObjV, x: ObjV, v: Option<JsonV>)
    requires
        avoids(x, types::image_part_keys()),
        avoids(i, types::image_url_keys()),
        v != Some(JsonV::Null),
    ensures
        ({
            let w = types::ImagePartV {
                part_type: Some("image_url"@),
                image_url: types::ImageUrlV { url, extra: i },
                prompt_cache_breakpoint: v,
                extra: x,
            };
            let h = match v {
                Some(w) => Some(settled_hint(w)),
                None => None,
            };
            let t = image_members(seq![("url"@, JsonV::Str(url))] + swept(i));
            input_value(image_of(w, true)) == Some(
                JsonV::Object(hinted_members(t, h) + kept(x)),
            )
        }),
{
    broadcast use obj_index_props;
    part_names();
    url_is_restored(url);
    let known = types::image_part_keys();
    assert(known[0] == "type"@ && known[1] == "image_url"@ && known[2] == breakpoint_key());
    let fmt = OPENAI_CHAT_COMPLETIONS@;
    let k = breakpoint_key();
    let e = explicit_breakpoint();
    let uk = types::image_url_keys();
    assert(uk[0] == "url"@);
    let head = seq![("url"@, JsonV::Str(url))];
    assert(within(head, uk));
    known_are_apart(head, i, uk);
    apart_data_is_appended(head, i, i.len());
    let t0 = image_members(head);
    let t1 = image_members(head + swept(i));
    avoided_is_absent(x, known, "image_url"@);
    avoided_is_absent(x, known, k);
    let p = non_null(x, x.len());
    non_null_avoids(x, known);
    non_null_is_without(x, "image_url"@);
    let y = nested(x, "image_url"@, i);
    let part = match v {
        Some(_) => t0.push((k, e)),
        None => t0,
    };
    if v is Some {
        absent_is_not_read(t0, k, e);
    }
    let rest = match v {
        Some(w) => if w == e { None } else { Some(w) },
        None => None,
    };
    let f = put_if(y, k, rest);
    // The data for the URL goes in place.
    let part1 = match v {
        Some(_) => t1.push((k, e)),
        None => t1,
    };
    assert(within(part, known)) by {
        assert forall|j: int| 0 <= j < part.len() implies known.contains((#[trigger] part[j]).0) by {}
    }
    known_are_apart(part, p, known);
    apart_data_is_appended(part, p, p.len());
    let q = non_null(y, y.len());
    assert(merged(part, q) == part1 + kept(x)) by {
        if i.len() > 0 {
            absent_is_not_read(x, "image_url"@, JsonV::Object(i));
            non_null_front(x, ("image_url"@, JsonV::Object(i)), x.len());
            assert(q == p.push(("image_url"@, JsonV::Object(i))));
            merge_front_members(part, p, ("image_url"@, JsonV::Object(i)), p.len());
            first_named_is_read(part, "image_url"@, 1);
            let r = JsonV::Object(head + swept(i));
            change_in_front(part, kept(x), "image_url"@, r);
            assert(obj_set(part, "image_url"@, r) =~= part1) by {
                reveal(obj_set);
            }
        } else {
            let none = Seq::<(Seq<char>, JsonV)>::empty();
            assert(i =~= none);
            assert(swept(none) == none);
            assert(head + none =~= head);
        }
    }
    fields_are_merged(fmt, part, f);
    assert(absent(y, k)) by {
        if i.len() > 0 {
            absent_is_not_read(x, "image_url"@, JsonV::Object(i));
        }
    }
    breakpoint_comes_last(y, rest);
    if let Some(w) = rest {
        merge_front_members(part, q, (k, w), q.len());
        let r = combined(Some(e), Some(w))->0;
        first_named_is_read(part1, k, 2);
        change_in_front(part1, kept(x), k, r);
        there(part1, kept(x), k, 2);
        assert(obj_set(part1, k, r) =~= t1.push((k, r))) by {
            reveal(obj_set);
        }
    }
}

proof fn input_image_settles(part: JsonV)
    requires
        part_type(part) == Some("image_url"@),
        types::decode_image_part(part) is Ok,
        steady_input(part),
    ensures
        ({
            let u = input_value(read_part(part, true))->0;
            &&& input_stays(u)
            &&& read_part(u, true) is Image
        }),
{
    part_names();
    let known = types::image_part_keys();
    assert(known[0] == "type"@ && known[1] == "image_url"@ && known[2] == breakpoint_key());
    let uk = types::image_url_keys();
    assert(uk[0] == "url"@);
    let w = types::decode_image_part(part)->Ok_0;
    let o = part->Object_0;
    unknown_avoids(o, known, o.len());
    let io = obj_get(o, "image_url"@)->0->Object_0;
    unknown_avoids(io, uk, io.len());
    let i = w.image_url.extra;
    let v = w.prompt_cache_breakpoint;
    image_is_written(w.image_url.url, i, w.extra, v);
    let head = seq![("url"@, JsonV::Str(w.image_url.url))];
    let t = image_members(head + swept(i));
    let h = match v {
        Some(x) => Some(settled_hint(x)),
        None => None,
    };
    if v is Some {
        settled_hint_is_some(v->0);
    }
    let u = JsonV::Object(hinted_members(t, h) + kept(w.extra));
    assert(input_value(read_part(part, true)) == Some(u));
    assert(within(t, known));
    hinted_part_is_read(t, w.extra, known, h);
    first_named_is_read(t, "type"@, 0);
    first_named_is_read(t, "image_url"@, 1);
    assert(obj_get(u->Object_0, "type"@) == obj_get(t, "type"@));
    assert(obj_get(u->Object_0, "image_url"@) == obj_get(t, "image_url"@));
    swept_data_avoids(i, uk);
    swept_data_stays(i);
    assert(within(head, uk));
    unmodeled_members_are_kept(head, swept(i), uk);
    there(head, swept(i), "url"@, 0);
    let w2 = types::ImagePartV {
        part_type: Some("image_url"@),
        image_url: types::ImageUrlV { url: w.image_url.url, extra: swept(i) },
        prompt_cache_breakpoint: h,
        extra: kept(w.extra),
    };
    assert(types::decode_image_part(u) == Ok::<types::ImagePartV, Seq<char>>(w2));
    kept_fields_avoid(w.extra, known);
    kept_fields_stay(w.extra);
    image_is_written(w.image_url.url, swept(i), kept(w.extra), h);
}

proof fn input_refusal_settles(part: JsonV)
    requires
        part_type(part) == Some("refusal"@),
        types::decode_refusal_part(part) is Ok,
        steady_input(part),
        obj_get(part->Object_0, "text"@) is None && obj_get(part->Object_0, breakpoint_key()) is None,
    ensures
        ({
            let u = input_value(read_part(part, true))->0;
            &&& input_stays(u)
            &&& bare_text(read_part(u, true)) == bare_text(read_part(part, true))
            &&& read_part(u, true) is Text
        }),
{
    part_names();
    content_names();
    let w = types::decode_refusal_part(part)->Ok_0;
    let o = part->Object_0;
    let rk = types::refusal_part_keys();
    assert(rk[0] == "type"@ && rk[1] == "refusal"@);
    unknown_avoids(o, rk, o.len());
    unread_is_absent(o, "text"@);
    unread_is_absent(o, breakpoint_key());
    lacking_stays(o, rk, "text"@, o.len());
    lacking_stays(o, rk, breakpoint_key(), o.len());
    avoided_is_absent(w.extra, rk, "refusal"@);
    avoided_is_absent(w.extra, rk, "type"@);
    let m = JsonV::Bool(true);
    absent_is_not_read(w.extra, "refusal"@, m);
    let f = w.extra.push(("refusal"@, m));
    let known = types::text_part_keys();
    assert(known[0] == "type"@ && known[1] == "text"@ && known[2] == breakpoint_key());
    assert(avoids(f, known)) by {
        assert forall|j: int| 0 <= j < f.len() implies !known.contains((#[trigger] f[j]).0) by {
            if j < w.extra.len() {
                assert(f[j] == w.extra[j]);
            }
        }
    }
    text_is_written(w.refusal, f, None);
    text_part_is_read(w.refusal, f, None);
    kept_fields_avoid(f, known);
    kept_fields_stay(f);
    text_is_written(w.refusal, kept(f), None);
    fields_are_merged(OPENAI_CHAT_COMPLETIONS@, Seq::empty(), f);
    fields_are_merged(OPENAI_CHAT_COMPLETIONS@, Seq::empty(), kept(f));
    swept_data_is_there(f);
}

proof fn lacking_stays(o: ObjV, known: Seq<Seq<char>>, k: Seq<char>, n: nat)
    requires
        n <= o.len(),
        absent(o, k),
    ensures
        absent(unknown_upto(o, known, n), k),
    decreases n,
{
    if n > 0 {
        lacking_stays(o, known, k, (n - 1) as nat);
    }
}

/// An input part stays as it was first written.
pub proof fn input_part_settles(part: JsonV)
    requires
        steady_input(part),
    ensures
        ({
            let b = read_part(part, true);
            let u = input_value(b)->0;
            &&& input_value(b) is Some
            &&& input_value(read_part(u, true)) == Some(u)
            &&& bare_text(read_part(u, true)) == bare_text(b)
            &&& (read_part(u, true) is Image) ==> b is Image || b is Text
            &&& b is Image ==> read_part(u, true) is Image
            &&& b is Text ==> !(read_part(u, true) is Image)
            &&& b is Opaque ==> u == part
        }),
{
    part_names();
    let t = part_type(part);
    let b = read_part(part, true);
    let u = input_value(b)->0;
    input_is_written_anywhere((Seq::empty(), empty_sink()), part, 0, Seq::empty(), false);
    if t == Some("text"@) && types::decode_text_part(part) is Ok {
        input_text_settles(part);
    } else if t == Some("image_url"@) && types::decode_image_part(part) is Ok {
        input_image_settles(part);
    } else if t == Some("refusal"@) && types::decode_refusal_part(part) is Ok {
        if obj_get(part->Object_0, "text"@) is None && obj_get(part->Object_0, breakpoint_key()) is None {
            input_refusal_settles(part);
        } else {
            let w = types::decode_refusal_part(part)->Ok_0;
            content_names();
            let f = obj_set(w.extra, REFUSAL_KEY@, JsonV::Bool(true));
            fields_are_merged(OPENAI_CHAT_COMPLETIONS@, Seq::empty(), f);
            mark_is_kept(w.extra);
            refused_input_is_text(part);
        }
    } else {
        assert(b == opaque(part));
    }
}

proof fn mark_is_kept(x: ObjV)
    ensures
        kept(obj_set(x, REFUSAL_KEY@, JsonV::Bool(true))).len() > 0,
{
    broadcast use obj_index_props;
    let f = obj_set(x, REFUSAL_KEY@, JsonV::Bool(true));
    swept_data_is_there(f);
    set_member_is_read(x, REFUSAL_KEY@, JsonV::Bool(true));
    reveal(obj_get);
    let i = obj_index(f, REFUSAL_KEY@);
    something_is_kept(f, i, f.len());
}

proof fn something_is_kept(f: ObjV, i: int, n: nat)
    requires
        0 <= i < n <= f.len(),
        !(f[i].1 is Null),
    ensures
        non_null(f, n).len() > 0,
    decreases n,
{
    if i < n - 1 {
        something_is_kept(f, i, (n - 1) as nat);
    }
}

/// A refusal in an input message is written as text.
proof fn refused_input_is_text(part: JsonV)
    requires
        part_type(part) == Some("refusal"@),
        types::decode_refusal_part(part) is Ok,
    ensures
        !(read_part(input_value(read_part(part, true))->0, true) is Image),
{
    part_names();
    content_names();
    let w = types::decode_refusal_part(part)->Ok_0;
    let o = part->Object_0;
    let rk = types::refusal_part_keys();
    assert(rk[0] == "type"@ && rk[1] == "refusal"@);
    unknown_avoids(o, rk, o.len());
    avoided_is_absent(w.extra, rk, "refusal"@);
    let f = obj_set(w.extra, REFUSAL_KEY@, JsonV::Bool(true));
    absent_is_not_read(w.extra, "refusal"@, JsonV::Bool(true));
    text_is_listed(w.refusal);
    let t = text_members(w.refusal);
    fields_are_merged(OPENAI_CHAT_COMPLETIONS@, t, f);
    let p = non_null(f, f.len());
    assert(avoids(f, seq!["type"@])) by {
        assert forall|j: int| 0 <= j < f.len() implies !seq!["type"@].contains((#[trigger] f[j]).0) by {
            if j < w.extra.len() {
                assert(f[j] == w.extra[j]);
                assert(!rk.contains(f[j].0));
            }
        }
    }
    non_null_avoids(f, seq!["type"@]);
    assert forall|j: int| 0 <= j < p.len() implies (#[trigger] p[j]).0 != "type"@ by {
        assert(seq!["type"@][0] == "type"@);
        assert(!seq!["type"@].contains(p[j].0));
    }
    merge_keeps_other_members(t, p, p.len(), "type"@);
    first_named_is_read(t, "type"@, 0);
}

/// The text stands alone once it is written: nothing unmodeled is left, and it
/// is no refusal.
pub open spec fn lone_text(b: ContentBlockV) -> bool {
    match b {
        ContentBlockV::Text { text, cache, extra } => {
            let ns = extra_ns(extra, OPENAI_CHAT_COMPLETIONS@);
            text.len() > 0 && !is_refusal(ns) && swept(part_patch(ns)).len() == 0
        },
        _ => false,
    }
}

/// A part of assistant content that keeps its canonical form. Its members
/// `refusal` and `message` are reserved; one that has them names each member
/// once, and fields for the message are none.
pub open spec fn steady_answer(part: JsonV) -> bool {
    match read_part(part, false) {
        ContentBlockV::Text { text, cache, extra } => {
            &&& obj_get(part->Object_0, "refusal"@) is Some || obj_get(part->Object_0, MESSAGE_KEY@) is Some ==> obj_wf(
                part->Object_0,
            )
            &&& match obj_get(extra_ns(extra, OPENAI_CHAT_COMPLETIONS@), MESSAGE_KEY@) {
                Some(JsonV::Object(o)) => o.len() == 0,
                _ => true,
            }
        },
        _ => true,
    }
}

/// What is left when a name is removed.
pub proof fn removal_of_reserved(p: ObjV, o: ObjV, known: Seq<Seq<char>>, k: Seq<char>)
    requires
        no_nulls(p),
        avoids(p, known),
        absent(p, k) || obj_wf(p),
    ensures
        no_nulls(obj_remove(p, k)),
        avoids(obj_remove(p, k), known),
        absent(obj_remove(p, k), k),
        obj_wf(p) ==> obj_wf(obj_remove(p, k)),
        forall|x: Seq<char>| absent(p, x) ==> #[trigger] absent(obj_remove(p, k), x),
{
    broadcast use obj_index_props;
    if absent(p, k) {
        removing_nothing(p, k);
    } else {
        removal_leaves(p, k, known);
        let r = obj_remove(p, k);
        reveal(obj_remove);
        let i = obj_index(p, k);
        assert forall|x: Seq<char>| absent(p, x) implies #[trigger] absent(r, x) by {
            assert forall|j: int| 0 <= j < r.len() implies (#[trigger] r[j]).0 != x by {
                assert(r[j] == p[if i < p.len() && j >= i { j + 1 } else { j }]);
            }
        }
    }
}

proof fn removal_before_the_last(a: ObjV, m: (Seq<char>, JsonV), k: Seq<char>)
    requires
        m.0 != k,
    ensures
        obj_remove(a.push(m), k) == obj_remove(a, k).push(m),
{
    broadcast use obj_index_props;
    reveal(obj_remove);
    let b = a.push(m);
    let i = obj_index(a, k);
    let j = obj_index(b, k);
    if i < a.len() {
        assert(b[i] == a[i]);
        assert(j == i) by {
            if j < i {
                assert(b[j] == a[j]);
            }
        }
        assert(b.remove(i) =~= a.remove(i).push(m));
    } else {
        assert(j == b.len()) by {
            if j < b.len() {
                if j < a.len() {
                    assert(b[j] == a[j]);
                }
            }
        }
    }
}

/// What the provider data of assistant text adds to its part.
proof fn patch_is_listed(x: ObjV, v: Option<JsonV>, known: Seq<Seq<char>>) -> (p0: ObjV)
    requires
        avoids(x, known),
        known.contains(breakpoint_key()),
        v != Some(JsonV::Null),
        absent(x, REFUSAL_KEY@) && absent(x, MESSAGE_KEY@) || obj_wf(x),
    ensures
        ({
            let f = put_if(x, breakpoint_key(), v);
            let g = put_if(p0, breakpoint_key(), v);
            &&& part_patch(non_null(f, f.len())) == non_null(g, g.len())
            &&& avoids(p0, known)
            &&& no_nulls(p0)
            &&& absent(p0, REFUSAL_KEY@)
            &&& absent(p0, MESSAGE_KEY@)
            &&& obj_get(non_null(f, f.len()), REFUSAL_KEY@) == obj_get(non_null(x, x.len()), REFUSAL_KEY@)
            &&& obj_get(non_null(f, f.len()), MESSAGE_KEY@) == obj_get(non_null(x, x.len()), MESSAGE_KEY@)
        }),
{
    part_names();
    content_names();
    let p = non_null(x, x.len());
    non_null_avoids(x, known);
    no_nulls_are_left(x, x.len());
    if absent(x, REFUSAL_KEY@) && absent(x, MESSAGE_KEY@) {
        non_null_is_without(x, REFUSAL_KEY@);
        non_null_is_without(x, MESSAGE_KEY@);
    } else {
        names_stay_distinct(x, x.len());
    }
    removal_of_reserved(p, x, known, REFUSAL_KEY@);
    let p1 = obj_remove(p, REFUSAL_KEY@);
    removal_of_reserved(p1, x, known, MESSAGE_KEY@);
    let p0 = obj_remove(p1, MESSAGE_KEY@);
    nothing_null(p0);
    avoided_is_absent(x, known, breakpoint_key());
    avoided_is_absent(p0, known, breakpoint_key());
    breakpoint_comes_last(x, v);
    breakpoint_comes_last(p0, v);
    if let Some(w) = v {
        let m = (breakpoint_key(), w);
        removal_before_the_last(p, m, REFUSAL_KEY@);
        removal_before_the_last(p1, m, MESSAGE_KEY@);
        avoided_is_absent(p, known, breakpoint_key());
        absent_is_not_read(p, breakpoint_key(), w);
        set_keeps_other_members(p, breakpoint_key(), w, REFUSAL_KEY@);
        set_keeps_other_members(p, breakpoint_key(), w, MESSAGE_KEY@);
    }
    p0
}

pub proof fn no_nulls_are_left(x: ObjV, n: nat)
    requires
        n <= x.len(),
    ensures
        no_nulls(non_null(x, n)),
    decreases n,
{
    if n > 0 {
        no_nulls_are_left(x, (n - 1) as nat);
    }
}

pub proof fn names_stay_distinct(x: ObjV, n: nat)
    requires
        n <= x.len(),
        obj_wf(x),
    ensures
        obj_wf(non_null(x, n)),
{
    non_null_is_drawn(x, n);
}

/// The members of a refusal part.
pub open spec fn refusal_members(text: Seq<char>) -> ObjV {
    seq![("type"@, JsonV::Str("refusal"@)), ("refusal"@, JsonV::Str(text))]
}

/// A refusal part in its canonical form keeps it.
pub proof fn refusal_stays(text: Seq<char>, r: ObjV)
    requires
        clean(r),
        avoids(r, types::refusal_part_keys()),
        absent(r, MESSAGE_KEY@),
    ensures
        ({
            let u = JsonV::Object(refusal_members(text) + r);
            let b = read_part(u, false);
            &&& b is Text
            &&& answer_value(b) == u
            &&& !bare_text(b)
            &&& carries_nothing(b)
        }),
{
    part_names();
    content_names();
    let rk = types::refusal_part_keys();
    assert(rk[0] == "type"@ && rk[1] == "refusal"@);
    let t = refusal_members(text);
    assert(within(t, rk));
    unmodeled_members_are_kept(t, r, rk);
    there(t, r, "type"@, 0);
    there(t, r, "refusal"@, 1);
    let u = JsonV::Object(t + r);
    let w = types::RefusalPartV { part_type: Some("refusal"@), refusal: text, extra: r };
    assert(types::decode_refusal_part(u) == Ok::<types::RefusalPartV, Seq<char>>(w));
    refusal_is_written(text, r);
    clean_data_is_swept(r);
    nothing_is_dropped(r, r.len());
    assert(r.take(r.len() as int) =~= r);
    removing_nothing(r, MESSAGE_KEY@);
    absent_is_not_read(r, MESSAGE_KEY@, JsonV::Null);
}

/// No fields for the message come with the block.
pub open spec fn carries_nothing(b: ContentBlockV) -> bool {
    carried_fields(b).len() == 0
}

/// What a refusal block becomes.
pub proof fn refusal_is_written(text: Seq<char>, x: ObjV)
    requires
        avoids(x, types::refusal_part_keys()),
    ensures
        ({
            let b = refusal_block(text, x);
            let p = non_null(x, x.len());
            &&& absent(x, MESSAGE_KEY@) || obj_wf(x) ==> answer_value(b) == JsonV::Object(
                refusal_members(text) + swept(obj_remove(p, MESSAGE_KEY@)),
            )
            &&& !bare_text(b)
            &&& !lone_text(b)
            &&& carried_fields(b) == match obj_get(p, MESSAGE_KEY@) {
                Some(JsonV::Object(o)) => o,
                _ => Seq::<(Seq<char>, JsonV)>::empty(),
            }
        }),
{
    part_names();
    content_names();
    let rk = types::refusal_part_keys();
    assert(rk[0] == "type"@ && rk[1] == "refusal"@);
    let m = JsonV::Bool(true);
    avoided_is_absent(x, rk, "refusal"@);
    absent_is_not_read(x, "refusal"@, m);
    let f = x.push(("refusal"@, m));
    non_null_front(x, ("refusal"@, m), x.len());
    let p = non_null(x, x.len());
    let ns = p.push(("refusal"@, m));
    assert(non_null(f, f.len()) == ns);
    fields_are_merged(OPENAI_CHAT_COMPLETIONS@, Seq::empty(), f);
    swept_data_is_there(f);
    non_null_avoids(x, rk);
    avoided_is_absent(p, rk, "refusal"@);
    absent_is_not_read(p, "refusal"@, m);
    set_member_is_read(p, "refusal"@, m);
    set_keeps_other_members(p, "refusal"@, m, MESSAGE_KEY@);
    assert(obj_remove(ns, "refusal"@) == p) by {
        broadcast use obj_index_props;
        first_named_is_read(ns, "refusal"@, p.len() as int);
        reveal(obj_remove);
        assert(ns.remove(p.len() as int) =~= p);
    }
    let q = obj_remove(p, MESSAGE_KEY@);
    no_nulls_are_left(x, x.len());
    if absent(x, MESSAGE_KEY@) || obj_wf(x) {
        if absent(x, MESSAGE_KEY@) {
            non_null_is_without(x, MESSAGE_KEY@);
        } else {
            names_stay_distinct(x, x.len());
        }
        removal_of_reserved(p, x, rk, MESSAGE_KEY@);
        let t = refusal_members(text);
        assert(within(t, rk));
        known_are_apart(t, q, rk);
        apart_data_is_appended(t, q, q.len());
    }
}

proof fn answer_text_settles(part: JsonV)
    requires
        part_type(part) == Some("text"@),
        types::decode_text_part(part) is Ok,
        steady_answer(part),
    ensures
        ({
            let b = read_part(part, false);
            let u = answer_value(b);
            let c = read_part(u, false);
            &&& c is Text
            &&& answer_value(c) == u
            &&& bare_text(c) == lone_text(b)
            &&& carries_nothing(c)
        }),
{
    part_names();
    content_names();
    let fmt = OPENAI_CHAT_COMPLETIONS@;
    let known = types::text_part_keys();
    assert(known[0] == "type"@ && known[1] == "text"@ && known[2] == breakpoint_key());
    let w = types::decode_text_part(part)->Ok_0;
    let o = part->Object_0;
    unknown_avoids(o, known, o.len());
    let x = w.extra;
    let v = w.prompt_cache_breakpoint;
    let f = put_if(x, breakpoint_key(), v);
    if obj_get(o, "refusal"@) is Some || obj_get(o, MESSAGE_KEY@) is Some {
        members_left(o, known);
    } else {
        unread_is_absent(o, "refusal"@);
        unread_is_absent(o, MESSAGE_KEY@);
        lacking_stays(o, known, "refusal"@, o.len());
        lacking_stays(o, known, MESSAGE_KEY@, o.len());
    }
    let p0 = patch_is_listed(x, v, known);
    let g = put_if(p0, breakpoint_key(), v);
    fields_are_merged(fmt, Seq::empty(), f);
    let ns = non_null(f, f.len());
    let b = read_part(part, false);
    let u = answer_value(b);
    text_is_listed(w.text);
    let pg = non_null(g, g.len());
    assert(part_patch(ns) == pg);
    avoided_is_absent(p0, known, breakpoint_key());
    breakpoint_comes_last(p0, v);
    nothing_null(p0);
    if is_refusal(ns) {
        let rk = types::refusal_part_keys();
        assert(rk[0] == "type"@ && rk[1] == "refusal"@);
        let t = refusal_members(w.text);
        assert(within(t, rk));
        assert(avoids(pg, rk)) by {
            assert forall|j: int| 0 <= j < pg.len() implies !rk.contains((#[trigger] pg[j]).0) by {
                if j < p0.len() {
                    assert(pg[j] == p0[j]);
                    assert(!known.contains(p0[j].0));
                    assert(p0[j].0 != REFUSAL_KEY@);
                }
            }
        }
        known_are_apart(t, pg, rk);
        apart_data_is_appended(t, pg, pg.len());
        swept_data_is_clean(pg);
        swept_data_avoids(pg, rk);
        assert(absent(pg, MESSAGE_KEY@)) by {
            assert forall|j: int| 0 <= j < pg.len() implies (#[trigger] pg[j]).0 != MESSAGE_KEY@ by {
                if j < p0.len() {
                    assert(pg[j] == p0[j]);
                }
            }
        }
        swept_data_lacks(pg, MESSAGE_KEY@);
        refusal_stays(w.text, swept(pg));
    } else {
        text_is_written(w.text, p0, v);
        fields_are_merged(fmt, text_members(w.text), g);
        assert(u == JsonV::Object(text_members(w.text) + kept(g)));
        text_part_is_read(w.text, p0, v);
        let y = kept(p0);
        let v2 = combined(None, v);
        combined_stays(v);
        kept_fields_avoid(p0, known);
        kept_fields_stay(p0);
        swept_data_lacks(non_null(p0, p0.len()), REFUSAL_KEY@);
        swept_data_lacks(non_null(p0, p0.len()), MESSAGE_KEY@);
        let q0 = patch_is_listed(y, v2, known);
        let f2 = put_if(y, breakpoint_key(), v2);
        verbatim_breakpoint_stays(p0, v);
        fields_are_merged(fmt, Seq::empty(), f2);
        clean_member_by_member(y);
        assert(no_nulls(y)) by {
            assert forall|i: int| 0 <= i < y.len() implies !((#[trigger] y[i]).1 is Null) by {
                assert(clean_value(y[i].1));
            }
        }
        nothing_null(y);
        absent_is_not_read(non_null(y, y.len()), REFUSAL_KEY@, JsonV::Null);
        absent_is_not_read(non_null(y, y.len()), MESSAGE_KEY@, JsonV::Null);
        let ns2 = non_null(f2, f2.len());
        avoided_is_absent(y, known, breakpoint_key());
        breakpoint_comes_last(y, v2);
        assert(absent(ns2, REFUSAL_KEY@) && absent(ns2, MESSAGE_KEY@)) by {
            assert forall|j: int| 0 <= j < ns2.len() implies (#[trigger] ns2[j]).0 != REFUSAL_KEY@ && ns2[j].0
                != MESSAGE_KEY@ by {
                if j < y.len() {
                    assert(ns2[j] == y[j]);
                }
            }
        }
        removing_nothing(ns2, REFUSAL_KEY@);
        removing_nothing(ns2, MESSAGE_KEY@);
        fields_are_merged(fmt, text_members(w.text), f2);
        text_is_written(w.text, y, v2);
    }
}

proof fn answer_refusal_settles(part: JsonV)
    requires
        part_type(part) == Some("refusal"@),
        types::decode_refusal_part(part) is Ok,
        steady_answer(part),
    ensures
        ({
            let b = read_part(part, false);
            let u = answer_value(b);
            let c = read_part(u, false);
            &&& c is Text
            &&& answer_value(c) == u
            &&& bare_text(c) == lone_text(b)
            &&& carries_nothing(c)
        }),
{
    part_names();
    content_names();
    let rk = types::refusal_part_keys();
    assert(rk[0] == "type"@ && rk[1] == "refusal"@);
    let w = types::decode_refusal_part(part)->Ok_0;
    let o = part->Object_0;
    unknown_avoids(o, rk, o.len());
    let x = w.extra;
    members_left(o, rk);
    refusal_is_written(w.refusal, x);
    let p = non_null(x, x.len());
    let q = obj_remove(p, MESSAGE_KEY@);
    removal_of_reserved(p, x, rk, MESSAGE_KEY@);
    swept_data_is_clean(q);
    swept_data_avoids(q, rk);
    swept_data_lacks(q, MESSAGE_KEY@);
    refusal_stays(w.refusal, swept(q));
}

/// A part of assistant content that is not dropped stays as it was first
/// written.
pub proof fn answer_part_settles(part: JsonV)
    requires
        steady_answer(part),
        !(read_part(part, false) is Image),
    ensures
        ({
            let b = read_part(part, false);
            let u = answer_value(b);
            let c = read_part(u, false);
            &&& b is Text || b == opaque(part) && u == part
            &&& b is Text ==> c is Text
            &&& answer_value(c) == u
            &&& bare_text(c) == lone_text(b)
            &&& carries_nothing(b)
            &&& carries_nothing(c)
        }),
{
    let t = part_type(part);
    let b = read_part(part, false);
    if t == Some("text"@) && types::decode_text_part(part) is Ok {
        answer_text_settles(part);
    } else if t == Some("refusal"@) && types::decode_refusal_part(part) is Ok {
        answer_refusal_settles(part);
    } else {
        assert(b is Text || b is Opaque);
    }
}

/// Plain text of an answer, as a part, stays as it is.
pub proof fn plain_answer_stays(text: Seq<char>)
    ensures
        ({
            let b = text_block(text);
            let u = answer_value(b);
            let c = read_part(u, false);
            &&& u == text_part(text)
            &&& c == b
            &&& answer_value(c) == u
            &&& carries_nothing(b)
            &&& input_value(b) == Some(u)
            &&& read_part(u, true) == b
            &&& output_block(u) == text_output(text)
        }),
{
    part_names();
    content_names();
    let none = Seq::<(Seq<char>, JsonV)>::empty();
    text_is_listed(text);
    let t = text_members(text);
    text_part_is_read(text, none, None);
    assert(non_null(none, 0) =~= none);
    assert(kept(none) =~= none);
    assert(t + none =~= t);
    let ns = extra_ns(own_extra(none), OPENAI_CHAT_COMPLETIONS@);
    fields_are_merged(OPENAI_CHAT_COMPLETIONS@, t, none);
    assert(ns =~= none);
    absent_is_not_read(none, REFUSAL_KEY@, JsonV::Null);
    absent_is_not_read(none, MESSAGE_KEY@, JsonV::Null);
    removing_nothing(none, REFUSAL_KEY@);
    removing_nothing(none, MESSAGE_KEY@);
}

} // verus!
