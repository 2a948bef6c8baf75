//! Laws: a block is read back from the part that it becomes.

use vstd::prelude::*;
use crate::convert::ConversionWarningV;
use crate::decode::unknown;
use crate::format::GOOGLE_GENERATE_CONTENT;
use crate::formats::google_generate_content::parse_parts::{classified, g_leftover, media_block, member_count, part_block, part_fields, response_read, result_block, system_part, user_part, with_media, with_object};
use crate::formats::google_generate_content::parts::{allowed, call_args, call_part, file_data, image_part, inline_data, part_step, response_part, response_value, result_blocks, result_step, thinking_part, thought_part, tool_result_part, PartsV, ResultV};
use crate::formats::google_generate_content::types::{blob_keys, decode_blob, decode_file_data, decode_function_call, decode_function_response, decode_function_response_part, decode_part, decode_vec_function_response_part, encode_function_response_part, encode_part, file_data_keys, function_call_keys, function_response_keys, function_response_part_keys, part_keys, BlobV, FileDataV, FunctionCallV, FunctionResponsePartV, FunctionResponseV, PartV};
use crate::ir::{extra_get, extra_merged, extra_ns, text_output, ContentBlockV, ExtraV, ImageSourceV, Role, ToolOutputBlockV};
use crate::json::{obj_get, obj_remove, obj_set, obj_wf, object1, object2, put_if, JsonV, ObjV};
use crate::merge::merge_members;
use crate::namespaces::{absent, absent_is_not_read, avoids, clean, first_named_is_read, front_members_are_read, members_behind_are_read, modeled_members_are_known, namespace_holds_its_members, new_members_are_appended, not_there, null_free, null_free_prefix, provider_data_survives, put_all, put_fields_are_known, put_fields_are_read, there, tidy_for, unmodeled_members_add_up, unmodeled_members_are_kept, within};
use crate::sink::SinkV;
use crate::text::joined;
use crate::value::{json_from_str, plain_arguments};

verus! {

/// The thought signature at the end of provider data.
pub open spec fn tail_signature(ns: ObjV) -> Option<Seq<char>> {
    if ns.len() > 0 && ns.last().0 == "thoughtSignature"@ {
        match ns.last().1 {
            JsonV::Str(s) => Some(s),
            _ => None,
        }
    } else {
        None
    }
}

/// Provider data without the thought signature at its end.
pub open spec fn without_signature(ns: ObjV) -> ObjV {
    if tail_signature(ns) is Some { ns.drop_last() } else { ns }
}

/// Provider data of a part that the wire keeps as it is: unmodeled members,
/// then perhaps a thought signature.
pub open spec fn part_data(e: ExtraV) -> bool {
    let ns = extra_ns(e, GOOGLE_GENERATE_CONTENT@);
    e == g_leftover(ns) && clean(ns) && avoids(without_signature(ns), part_keys())
}

proof fn part_names()
    ensures
        names_apart(part_keys()),
        part_keys()[0] == "text"@,
        part_keys()[1] == "inlineData"@,
        part_keys()[2] == "functionCall"@,
        part_keys()[3] == "functionResponse"@,
        part_keys()[4] == "fileData"@,
        part_keys()[5] == "thought"@,
        part_keys()[6] == "thoughtSignature"@,
{
    reveal_strlit("text");
    reveal_strlit("inlineData");
    reveal_strlit("functionCall");
    reveal_strlit("functionResponse");
    reveal_strlit("fileData");
    reveal_strlit("thought");
    reveal_strlit("thoughtSignature");
    let k = part_keys();
    assert(k[0].len() == 4 && k[1].len() == 10 && k[2].len() == 12 && k[3].len() == 16 && k[4].len() == 8 && k[5].len()
        == 7 && k[6].len() == 16);
    assert(k[3][0] == 'f' && k[6][0] == 't');
}

/// No name occurs twice.
pub open spec fn names_apart(k: Seq<Seq<char>>) -> bool {
    forall|i: int, j: int| 0 <= i < j < k.len() ==> (#[trigger] k[i]) != (#[trigger] k[j])
}

spec fn str_opt(s: Option<Seq<char>>) -> Option<JsonV> {
    match s {
        Some(s) => Some(JsonV::Str(s)),
        None => None,
    }
}

/// A part keeps its provider data: the unmodeled members are told apart from
/// the signature, and the modeled members are read as they were.
proof fn part_survives(t: ObjV, extra: ExtraV)
    requires
        part_data(extra),
        within(t, part_keys()),
        absent(t, "thoughtSignature"@),
    ensures
        ({
            let ns = extra_ns(extra, GOOGLE_GENERATE_CONTENT@);
            let rest = without_signature(ns);
            let sig = tail_signature(ns);
            &&& extra_merged(extra, GOOGLE_GENERATE_CONTENT@, JsonV::Object(t)) == JsonV::Object(t + ns)
            &&& unknown(t + ns, part_keys()) == rest
            &&& obj_get(t + ns, "thoughtSignature"@) == str_opt(sig)
            &&& forall|k: Seq<char>|
                part_keys().contains(k) && k != "thoughtSignature"@ ==> #[trigger] obj_get(t + ns, k) == obj_get(t, k)
            &&& absent(rest, "thoughtSignature"@)
            &&& absent(rest, "thought"@)
            &&& ns == match sig {
                Some(s) => rest.push(("thoughtSignature"@, JsonV::Str(s))),
                None => rest,
            }
        }),
{
    part_names();
    let known = part_keys();
    let ns = extra_ns(extra, GOOGLE_GENERATE_CONTENT@);
    let rest = without_signature(ns);
    let sig = tail_signature(ns);
    let tail = match sig {
        Some(s) => seq![("thoughtSignature"@, JsonV::Str(s))],
        None => Seq::<(Seq<char>, JsonV)>::empty(),
    };
    assert(known.contains(known[6]) && known.contains(known[5]));
    assert(ns =~= rest + tail);
    if sig is Some {
        assert(rest.push(("thoughtSignature"@, JsonV::Str(sig->0))) =~= ns);
    }
    assert forall|j: int| 0 <= j < rest.len() implies (#[trigger] rest[j]).0 != "thoughtSignature"@ && rest[j].0
        != "thought"@ by {
        assert(!known.contains(rest[j].0));
    }
    assert forall|i: int| 0 <= i < ns.len() implies absent(t, (#[trigger] ns[i]).0) by {
        if i < rest.len() {
            assert(ns[i] == rest[i]);
            assert forall|j: int| 0 <= j < t.len() implies (#[trigger] t[j]).0 != ns[i].0 by {
                assert(known.contains(t[j].0));
                assert(!known.contains(rest[i].0));
            }
        }
    }
    namespace_holds_its_members(GOOGLE_GENERATE_CONTENT@, ns);
    new_members_are_appended(t, ns, ns.len());
    assert(ns.take(ns.len() as int) =~= ns);
    if ns.len() == 0 {
        assert(t + ns =~= t);
    }
    modeled_members_are_known(t, known);
    let none = Seq::<(Seq<char>, JsonV)>::empty();
    unmodeled_members_are_kept(none, rest, known);
    assert(none + rest =~= rest);
    modeled_members_are_known(tail, known);
    unmodeled_members_add_up(rest, tail, known);
    unmodeled_members_add_up(t, ns, known);
    assert(none + (rest + none) =~= rest);
    members_behind_are_read(t, ns, "thoughtSignature"@);
    members_behind_are_read(rest, tail, "thoughtSignature"@);
    if sig is Some {
        first_named_is_read(tail, "thoughtSignature"@, 0);
    } else {
        absent_is_not_read(tail, "thoughtSignature"@, JsonV::Null);
    }
    assert forall|k: Seq<char>| known.contains(k) && k != "thoughtSignature"@ implies #[trigger] obj_get(t + ns, k)
        == obj_get(t, k) by {
        assert forall|j: int| 0 <= j < ns.len() implies (#[trigger] ns[j]).0 != k by {
            if j < rest.len() {
                assert(ns[j] == rest[j]);
                assert(!known.contains(rest[j].0));
            }
        }
        let one = seq![k];
        assert(one.contains(k)) by {
            assert(one[0] == k);
        }
        assert(avoids(ns, one)) by {
            assert forall|j: int| 0 <= j < ns.len() implies !one.contains((#[trigger] ns[j]).0) by {}
        }
        front_members_are_read(t, ns, one, k);
    }
}

/// A part of one modeled member.
proof fn lone_member(k: Seq<char>, v: JsonV, extra: ExtraV)
    requires
        part_data(extra),
        part_keys().contains(k),
        k != "thoughtSignature"@,
    ensures
        ({
            let ns = extra_ns(extra, GOOGLE_GENERATE_CONTENT@);
            let o = seq![(k, v)] + ns;
            &&& extra_merged(extra, GOOGLE_GENERATE_CONTENT@, object1(k, v)) == JsonV::Object(o)
            &&& unknown(o, part_keys()) == without_signature(ns)
            &&& obj_get(o, k) == Some(v)
            &&& obj_get(o, "thoughtSignature"@) == str_opt(tail_signature(ns))
            &&& forall|n: Seq<char>|
                part_keys().contains(n) && n != k && n != "thoughtSignature"@ ==> #[trigger] obj_get(o, n) is None
        }),
{
    let t = seq![(k, v)];
    part_survives(t, extra);
    first_named_is_read(t, k, 0);
    assert forall|n: Seq<char>| part_keys().contains(n) && n != k && n != "thoughtSignature"@ implies (
    #[trigger] obj_get(t + extra_ns(extra, GOOGLE_GENERATE_CONTENT@), n)) is None by {
        absent_is_not_read(t, n, JsonV::Null);
    }
}

/// The part with one union member, as a parse types it.
spec fn plain_part(extra: ExtraV) -> PartV {
    let ns = extra_ns(extra, GOOGLE_GENERATE_CONTENT@);
    PartV {
        text: None,
        inline_data: None,
        function_call: None,
        function_response: None,
        file_data: None,
        thought: None,
        thought_signature: tail_signature(ns),
        extra: without_signature(ns),
    }
}

/// The leftover fields of such a part are its provider data.
proof fn fields_survive(p: PartV, extra: ExtraV)
    requires
        part_data(extra),
        p.thought is None,
        p.thought_signature == tail_signature(extra_ns(extra, GOOGLE_GENERATE_CONTENT@)),
        p.extra == without_signature(extra_ns(extra, GOOGLE_GENERATE_CONTENT@)),
    ensures
        g_leftover(part_fields(p)) == extra,
        part_fields(p) == extra_ns(extra, GOOGLE_GENERATE_CONTENT@),
{
    let none = Seq::<(Seq<char>, JsonV)>::empty();
    part_survives(none, extra);
    if p.thought_signature is Some {
        absent_is_not_read(p.extra, "thoughtSignature"@, JsonV::Str(p.thought_signature->0));
    }
}

/// The data under member `k` at the end of provider data.
pub open spec fn nested_data(ns: ObjV, k: Seq<char>) -> ObjV {
    if ns.len() > 0 && ns.last().0 == k {
        match ns.last().1 {
            JsonV::Object(q) => q,
            _ => Seq::empty(),
        }
    } else {
        Seq::empty()
    }
}

/// Provider data without the data under member `k` at its end.
pub open spec fn outer_data(ns: ObjV, k: Seq<char>) -> ObjV {
    if nested_data(ns, k).len() > 0 { ns.drop_last() } else { ns }
}

/// Provider data of a part that the wire keeps as it is: that of the part, then
/// perhaps data of its member `k` beside the members named `known`.
pub open spec fn member_data(e: ExtraV, k: Seq<char>, known: Seq<Seq<char>>) -> bool {
    let ns = extra_ns(e, GOOGLE_GENERATE_CONTENT@);
    &&& e == g_leftover(ns)
    &&& clean(ns)
    &&& avoids(without_signature(outer_data(ns, k)), part_keys())
    &&& avoids(nested_data(ns, k), known)
}

/// The provider data of the part itself.
pub open spec fn outer_extra(e: ExtraV, k: Seq<char>) -> ExtraV {
    g_leftover(outer_data(extra_ns(e, GOOGLE_GENERATE_CONTENT@), k))
}

/// Data without the nested data at its end is as clean as with it.
proof fn outer_is_clean(ns: ObjV, k: Seq<char>)
    requires
        clean(ns),
    ensures
        clean(outer_data(ns, k)),
        obj_wf(nested_data(ns, k)),
        null_free(nested_data(ns, k), nested_data(ns, k).len()),
        ns == with_object(outer_data(ns, k), k, nested_data(ns, k)),
{
    let q = nested_data(ns, k);
    let outer = outer_data(ns, k);
    if q.len() > 0 {
        null_free_prefix(ns, outer, outer.len());
        assert(ns[ns.len() - 1].1 == JsonV::Object(q));
        assert forall|j: int| 0 <= j < outer.len() implies (#[trigger] outer[j]).0 != k by {
            assert(ns[j].0 != ns[ns.len() - 1].0);
        }
        absent_is_not_read(outer, k, JsonV::Object(q));
        assert(outer.push((k, JsonV::Object(q))) =~= ns);
    } else {
        assert(null_free(q, q.len())) by {
            assert(q.len() == 0);
        }
    }
}

/// A part of one modeled member, an object that takes nested data in.
proof fn nested_member(k: Seq<char>, inner: ObjV, extra: ExtraV, known: Seq<Seq<char>>)
    requires
        member_data(extra, k, known),
        within(inner, known),
        part_keys().contains(k),
        k != "thoughtSignature"@,
    ensures
        ({
            let ns = extra_ns(extra, GOOGLE_GENERATE_CONTENT@);
            let outer = outer_data(ns, k);
            let v = JsonV::Object(inner + nested_data(ns, k));
            let o = seq![(k, v)] + outer;
            &&& extra_merged(extra, GOOGLE_GENERATE_CONTENT@, object1(k, JsonV::Object(inner))) == JsonV::Object(o)
            &&& extra_ns(outer_extra(extra, k), GOOGLE_GENERATE_CONTENT@) == outer
            &&& part_data(outer_extra(extra, k))
            &&& unknown(o, part_keys()) == without_signature(outer)
            &&& obj_get(o, k) == Some(v)
            &&& obj_get(o, "thoughtSignature"@) == str_opt(tail_signature(outer))
            &&& forall|n: Seq<char>|
                part_keys().contains(n) && n != k && n != "thoughtSignature"@ ==> #[trigger] obj_get(o, n) is None
            &&& unknown(inner + nested_data(ns, k), known) == nested_data(ns, k)
        }),
{
    part_names();
    let pk = part_keys();
    let ns = extra_ns(extra, GOOGLE_GENERATE_CONTENT@);
    let q = nested_data(ns, k);
    let outer = outer_data(ns, k);
    let t = seq![(k, JsonV::Object(inner))];
    let v = JsonV::Object(inner + q);
    outer_is_clean(ns, k);
    namespace_holds_its_members(GOOGLE_GENERATE_CONTENT@, outer);
    namespace_holds_its_members(GOOGLE_GENERATE_CONTENT@, ns);
    lone_member(k, v, outer_extra(extra, k));
    unmodeled_members_are_kept(inner, q, known);
    if q.len() == 0 {
        assert(inner + q =~= inner);
    } else {
        let n = outer.len();
        part_survives(t, outer_extra(extra, k));
        assert forall|i: int| 0 <= i < n implies absent(t, (#[trigger] ns[i]).0) by {
            assert(ns[i].0 != ns[ns.len() - 1].0);
        }
        null_free_prefix(ns, ns, n);
        new_members_are_appended(t, ns, n);
        assert(ns.take(n as int) =~= outer);
        let prev = t + outer;
        assert(prev[0] == t[0]);
        first_named_is_read(prev, k, 0);
        assert forall|i: int| 0 <= i < q.len() implies absent(inner, (#[trigger] q[i]).0) by {
            assert(!known.contains(q[i].0));
            assert forall|j: int| 0 <= j < inner.len() implies (#[trigger] inner[j]).0 != q[i].0 by {
                assert(known.contains(inner[j].0));
            }
        }
        new_members_are_appended(inner, q, q.len());
        assert(q.take(q.len() as int) =~= q);
        reveal(obj_set);
        assert(ns[ns.len() - 1] == (k, JsonV::Object(q)));
        assert(merge_members(t, ns, ns.len()) =~= seq![(k, v)] + outer);
    }
}

/// A text is read back from the part that it becomes, on either side and in
/// the system instruction.
pub proof fn text_round_trip(text: Seq<char>, extra: ExtraV, loc: Seq<char>, ws: Seq<ConversionWarningV>)
    requires
        part_data(extra),
    ensures
        ({
            let v = extra_merged(extra, GOOGLE_GENERATE_CONTENT@, object1("text"@, JsonV::Str(text)));
            let b = ContentBlockV::Text { text, cache: None, extra };
            match decode_part(v) {
                Ok(p) => {
                    &&& member_count(p) == 1
                    &&& p.text is Some
                    &&& p.function_response is None
                    &&& user_part(p) == b
                    &&& system_part(p) == b
                    &&& classified(p, loc, ws).1 == ws
                    &&& part_block(classified(p, loc, ws).0) == b
                },
                Err(_) => false,
            }
        }),
{
    part_names();
    let k = part_keys();
    assert(k.contains(k[0]) && k.contains(k[1]) && k.contains(k[2]) && k.contains(k[3]) && k.contains(k[4])
        && k.contains(k[5]));
    lone_member("text"@, JsonV::Str(text), extra);
    let p = PartV { text: Some(text), ..plain_part(extra) };
    let v = extra_merged(extra, GOOGLE_GENERATE_CONTENT@, object1("text"@, JsonV::Str(text)));
    assert(decode_part(v) == Ok::<PartV, Seq<char>>(p));
    fields_survive(p, extra);
}

/// The members of inline media.
spec fn blob_members(media_type: Seq<char>, data: Seq<char>) -> ObjV {
    seq![("mimeType"@, JsonV::Str(media_type)), ("data"@, JsonV::Str(data))]
}

/// Inline media is read back, with what stands beside it.
proof fn blob_is_decoded(media_type: Seq<char>, data: Seq<char>, q: ObjV)
    requires
        avoids(q, blob_keys()),
    ensures
        within(blob_members(media_type, data), blob_keys()),
        decode_blob(JsonV::Object(blob_members(media_type, data) + q)) == Ok::<BlobV, Seq<char>>(
            BlobV { mime_type: media_type, data, extra: q },
        ),
{
    reveal_strlit("mimeType");
    reveal_strlit("data");
    assert("mimeType"@.len() == 8 && "data"@.len() == 4);
    let known = blob_keys();
    let m = blob_members(media_type, data);
    assert(known[0] == "mimeType"@ && known[1] == "data"@);
    assert forall|i: int| 0 <= i < m.len() implies known.contains((#[trigger] m[i]).0) by {
        assert(m[i].0 == known[i]);
    }
    there(m, q, "mimeType"@, 0);
    there(m, q, "data"@, 1);
    unmodeled_members_are_kept(m, q, known);
}

/// The media type at the end of the data of a file reference.
pub open spec fn file_type(q: ObjV) -> Option<Seq<char>> {
    if q.len() > 0 && q.last().0 == "mimeType"@ {
        match q.last().1 {
            JsonV::Str(m) => Some(m),
            _ => None,
        }
    } else {
        None
    }
}

/// The data of a file reference without its media type.
pub open spec fn without_type(q: ObjV) -> ObjV {
    if file_type(q) is Some { q.drop_last() } else { q }
}

/// The member names of a file reference that provider data may not hold.
pub open spec fn uri_keys() -> Seq<Seq<char>> {
    seq!["fileUri"@]
}

/// A file reference is read back, with its media type and what else stands
/// beside it.
proof fn file_is_decoded(uri: Seq<char>, q: ObjV)
    requires
        obj_wf(q),
        avoids(without_type(q), file_data_keys()),
    ensures
        within(seq![("fileUri"@, JsonV::Str(uri))], uri_keys()),
        avoids(q, uri_keys()),
        decode_file_data(JsonV::Object(seq![("fileUri"@, JsonV::Str(uri))] + q)) == Ok::<FileDataV, Seq<char>>(
            FileDataV { mime_type: file_type(q), file_uri: uri, extra: without_type(q) },
        ),
        q == match file_type(q) {
            Some(m) => obj_set(without_type(q), "mimeType"@, JsonV::Str(m)),
            None => without_type(q),
        },
{
    reveal_strlit("mimeType");
    reveal_strlit("fileUri");
    assert("mimeType"@.len() == 8 && "fileUri"@.len() == 7);
    let known = file_data_keys();
    assert(known[0] == "mimeType"@ && known[1] == "fileUri"@);
    assert(uri_keys()[0] == "fileUri"@);
    let t = seq![("fileUri"@, JsonV::Str(uri))];
    let rest = without_type(q);
    let tail = match file_type(q) {
        Some(m) => seq![("mimeType"@, JsonV::Str(m))],
        None => Seq::<(Seq<char>, JsonV)>::empty(),
    };
    assert(q =~= rest + tail);
    assert(known.contains(known[0]) && known.contains(known[1]));
    assert forall|j: int| 0 <= j < rest.len() implies (#[trigger] rest[j]).0 != "mimeType"@ && rest[j].0
        != "fileUri"@ by {
        assert(!known.contains(rest[j].0));
    }
    assert forall|j: int| 0 <= j < q.len() implies !uri_keys().contains((#[trigger] q[j]).0) by {
        if j < rest.len() {
            assert(q[j] == rest[j]);
        }
    }
    there(t, q, "fileUri"@, 0);
    members_behind_are_read(t, q, "mimeType"@);
    members_behind_are_read(rest, tail, "mimeType"@);
    if file_type(q) is Some {
        first_named_is_read(tail, "mimeType"@, 0);
        absent_is_not_read(rest, "mimeType"@, JsonV::Str(file_type(q)->0));
        assert(rest.push(("mimeType"@, JsonV::Str(file_type(q)->0))) =~= q);
    } else {
        absent_is_not_read(tail, "mimeType"@, JsonV::Null);
    }
    let none = Seq::<(Seq<char>, JsonV)>::empty();
    modeled_members_are_known(t, known);
    unmodeled_members_are_kept(none, rest, known);
    assert(none + rest =~= rest);
    modeled_members_are_known(tail, known);
    unmodeled_members_add_up(rest, tail, known);
    unmodeled_members_add_up(t, q, known);
    assert(none + (rest + none) =~= rest);
}

/// Provider data of an image that the wire keeps as it is.
pub open spec fn image_data(source: ImageSourceV, e: ExtraV) -> bool {
    let ns = extra_ns(e, GOOGLE_GENERATE_CONTENT@);
    match source {
        ImageSourceV::Base64 { media_type, data } => member_data(e, "inlineData"@, blob_keys()),
        ImageSourceV::FileId(_) => member_data(e, "fileData"@, uri_keys()) && avoids(
            without_type(nested_data(ns, "fileData"@)),
            file_data_keys(),
        ),
        ImageSourceV::Url(_) => false,
    }
}

/// An image is read back from the part that it becomes, on either side. A URL
/// comes back as a file reference and is not meant here.
pub proof fn image_round_trip(
    source: ImageSourceV,
    extra: ExtraV,
    ptr: Seq<char>,
    s: SinkV,
    loc: Seq<char>,
    ws: Seq<ConversionWarningV>,
)
    requires
        image_data(source, extra),
    ensures
        ({
            let (w, s1) = image_part(source, ptr, s);
            let v = extra_merged(extra, GOOGLE_GENERATE_CONTENT@, w);
            let b = ContentBlockV::Image { source, cache: None, extra };
            &&& s1 == s
            &&& match decode_part(v) {
                Ok(p) => {
                    &&& member_count(p) == 1
                    &&& p.function_response is None
                    &&& user_part(p) == b
                    &&& classified(p, loc, ws).1 == ws
                    &&& part_block(classified(p, loc, ws).0) == b
                },
                Err(_) => false,
            }
        }),
{
    part_names();
    let k = part_keys();
    assert(k.contains(k[0]) && k.contains(k[1]) && k.contains(k[2]) && k.contains(k[3]) && k.contains(k[4])
        && k.contains(k[5]));
    let v = extra_merged(extra, GOOGLE_GENERATE_CONTENT@, image_part(source, ptr, s).0);
    let ns = extra_ns(extra, GOOGLE_GENERATE_CONTENT@);
    match source {
        ImageSourceV::Base64 { media_type, data } => {
            let key = "inlineData"@;
            let q = nested_data(ns, key);
            outer_is_clean(ns, key);
            blob_is_decoded(media_type, data, q);
            nested_member(key, blob_members(media_type, data), extra, blob_keys());
            let p = PartV {
                inline_data: Some(BlobV { mime_type: media_type, data, extra: q }),
                ..plain_part(outer_extra(extra, key))
            };
            assert(decode_part(v) == Ok::<PartV, Seq<char>>(p));
            fields_survive(p, outer_extra(extra, key));
        },
        ImageSourceV::FileId(uri) => {
            let key = "fileData"@;
            let q = nested_data(ns, key);
            outer_is_clean(ns, key);
            file_is_decoded(uri, q);
            nested_member(key, seq![("fileUri"@, JsonV::Str(uri))], extra, uri_keys());
            let p = PartV {
                file_data: Some(FileDataV { mime_type: file_type(q), file_uri: uri, extra: without_type(q) }),
                ..plain_part(outer_extra(extra, key))
            };
            assert(decode_part(v) == Ok::<PartV, Seq<char>>(p));
            fields_survive(p, outer_extra(extra, key));
        },
        ImageSourceV::Url(_) => {},
    }
}

proof fn call_names()
    ensures
        "id"@ != "name"@,
        "id"@ != "args"@,
        "name"@ != "args"@,
        "id"@ != "response"@,
        "id"@ != "parts"@,
        "name"@ != "response"@,
        "name"@ != "parts"@,
        "response"@ != "parts"@,
        "error"@ != "output"@,
{
    reveal_strlit("id");
    reveal_strlit("name");
    reveal_strlit("args");
    reveal_strlit("response");
    reveal_strlit("parts");
    reveal_strlit("error");
    reveal_strlit("output");
    assert("id"@.len() == 2 && "name"@.len() == 4 && "args"@.len() == 4 && "response"@.len() == 8 && "parts"@.len() == 5
        && "error"@.len() == 5 && "output"@.len() == 6);
    assert("name"@[0] == 'n' && "args"@[0] == 'a');
}

/// The fields of a function call.
spec fn call_list(id: Option<Seq<char>>, name: Seq<char>, args: JsonV) -> Seq<(Seq<char>, Option<JsonV>)> {
    seq![("id"@, str_opt(id)), ("name"@, Some(JsonV::Str(name))), ("args"@, Some(args))]
}

/// A function call is read back, with what stands beside its members.
proof fn call_is_decoded(id: Option<Seq<char>>, name: Seq<char>, args: JsonV, q: ObjV)
    requires
        args is Object,
        avoids(q, function_call_keys()),
    ensures
        ({
            let o = put_all(call_list(id, name, args), 3);
            &&& within(o, function_call_keys())
            &&& call_part(id, name, args) == object1("functionCall"@, JsonV::Object(o))
            &&& decode_function_call(JsonV::Object(o + q)) == Ok::<FunctionCallV, Seq<char>>(
                FunctionCallV { id, name: Some(name), args: Some(args), extra: q },
            )
        }),
{
    call_names();
    let known = function_call_keys();
    let l = call_list(id, name, args);
    assert(known[0] == "id"@ && known[1] == "name"@ && known[2] == "args"@);
    assert forall|i: int| 0 <= i < l.len() implies known.contains((#[trigger] l[i]).0) by {
        assert(l[i].0 == known[i]);
    }
    let o = put_all(l, 3);
    put_fields_are_known(l, 3, known);
    assert(put_all(l, 1) == put_if(put_all(l, 0), l[0].0, l[0].1));
    assert(put_all(l, 2) == put_if(put_all(l, 1), l[1].0, l[1].1));
    assert(put_all(l, 3) == put_if(put_all(l, 2), l[2].0, l[2].1));
    assert forall|i: int| 0 <= i < l.len() implies obj_get(o + q, (#[trigger] l[i]).0) == l[i].1 by {
        put_fields_are_read(l, 3, i);
        assert(known.contains(l[i].0));
        front_members_are_read(o, q, known, l[i].0);
    }
    assert(obj_get(o + q, l[0].0) == l[0].1 && obj_get(o + q, l[1].0) == l[1].1 && obj_get(o + q, l[2].0) == l[2].1);
    unmodeled_members_are_kept(o, q, known);
}

/// A tool call is read back from the part that it becomes.
pub proof fn call_round_trip(
    id: Option<Seq<char>>,
    name: Seq<char>,
    arguments: Seq<char>,
    extra: ExtraV,
    ptr: Seq<char>,
    loc: Seq<char>,
    ws: Seq<ConversionWarningV>,
)
    requires
        member_data(extra, "functionCall"@, function_call_keys()),
        plain_arguments(arguments),
    ensures
        match call_args(name, arguments, ptr) {
            Ok(args) => {
                let v = extra_merged(extra, GOOGLE_GENERATE_CONTENT@, call_part(id, name, args));
                let b = ContentBlockV::ToolCall { id, name, arguments, cache: None, extra };
                match decode_part(v) {
                    Ok(p) => classified(p, loc, ws).1 == ws && part_block(classified(p, loc, ws).0) == b,
                    Err(_) => false,
                }
            },
            Err(_) => false,
        },
{
    part_names();
    let k = part_keys();
    assert(k.contains(k[0]) && k.contains(k[1]) && k.contains(k[2]) && k.contains(k[3]) && k.contains(k[4])
        && k.contains(k[5]));
    let key = "functionCall"@;
    let ns = extra_ns(extra, GOOGLE_GENERATE_CONTENT@);
    let q = nested_data(ns, key);
    let args = json_from_str(arguments)->Ok_0;
    outer_is_clean(ns, key);
    call_is_decoded(id, name, args, q);
    nested_member(key, put_all(call_list(id, name, args), 3), extra, function_call_keys());
    let v = extra_merged(extra, GOOGLE_GENERATE_CONTENT@, call_part(id, name, args));
    let p = PartV {
        function_call: Some(FunctionCallV { id, name: Some(name), args: Some(args), extra: q }),
        ..plain_part(outer_extra(extra, key))
    };
    assert(decode_part(v) == Ok::<PartV, Seq<char>>(p));
    fields_survive(p, outer_extra(extra, key));
}

/// Provider data of a thought: unmodeled members, then its marker.
pub open spec fn thought_data(e: ExtraV) -> bool {
    let ns = extra_ns(e, GOOGLE_GENERATE_CONTENT@);
    &&& e == g_leftover(ns)
    &&& clean(ns)
    &&& ns.len() > 0
    &&& ns.last() == ("thought"@, JsonV::Bool(true))
    &&& avoids(ns.drop_last(), part_keys())
}

/// A thought is read back from the part that it becomes.
pub proof fn thought_round_trip(
    text: Seq<char>,
    signature: Option<Seq<char>>,
    extra: ExtraV,
    as_text: bool,
    ptr: Seq<char>,
    s: SinkV,
    loc: Seq<char>,
    ws: Seq<ConversionWarningV>,
)
    requires
        thought_data(extra),
    ensures
        ({
            let (w, s1) = thinking_part(Some(text), signature, extra, as_text, ptr, s);
            let b = ContentBlockV::Thinking { text: Some(text), signature, extra };
            &&& s1 == s
            &&& w is Some
            &&& match decode_part(extra_merged(extra, GOOGLE_GENERATE_CONTENT@, w->0)) {
                Ok(p) => classified(p, loc, ws).1 == ws && part_block(classified(p, loc, ws).0) == b,
                Err(_) => false,
            }
        }),
{
    part_names();
    let known = part_keys();
    assert(known.contains(known[0]) && known.contains(known[1]) && known.contains(known[2]) && known.contains(known[3])
        && known.contains(known[4]) && known.contains(known[5]) && known.contains(known[6]));
    let ns = extra_ns(extra, GOOGLE_GENERATE_CONTENT@);
    let rest = ns.drop_last();
    let yes = JsonV::Bool(true);
    namespace_holds_its_members(GOOGLE_GENERATE_CONTENT@, ns);
    reveal(extra_get);
    assert(extra_get(extra, GOOGLE_GENERATE_CONTENT@) is Some);
    let none = Seq::<(Seq<char>, JsonV)>::empty();
    absent_is_not_read(none, "text"@, JsonV::Str(text));
    let t1 = seq![("text"@, JsonV::Str(text))];
    assert(none.push(("text"@, JsonV::Str(text))) =~= t1);
    absent_is_not_read(t1, "thought"@, yes);
    let t2 = seq![("text"@, JsonV::Str(text)), ("thought"@, yes)];
    assert(t1.push(("thought"@, yes)) =~= t2);
    let t = match signature {
        Some(sig) => t2.push(("thoughtSignature"@, JsonV::Str(sig))),
        None => t2,
    };
    if signature is Some {
        absent_is_not_read(t2, "thoughtSignature"@, JsonV::Str(signature->0));
    }
    assert(thought_part(text, signature) == JsonV::Object(t));
    let o = t + rest;
    assert(within(t, known));
    assert forall|i: int| 0 <= i < rest.len() implies absent(t, (#[trigger] ns[i]).0) by {
        assert(ns[i] == rest[i]);
        assert(!known.contains(rest[i].0));
    }
    null_free_prefix(ns, ns, rest.len());
    new_members_are_appended(t, ns, rest.len());
    assert(ns.take(rest.len() as int) =~= rest);
    assert(o[1] == ("thought"@, yes));
    assert(o[0] == t[0]);
    first_named_is_read(o, "thought"@, 1);
    reveal(obj_set);
    assert(obj_set(o, "thought"@, yes) =~= o);
    assert(merge_members(t, ns, ns.len()) == o);
    assert(extra_merged(extra, GOOGLE_GENERATE_CONTENT@, JsonV::Object(t)) == JsonV::Object(o));
    unmodeled_members_are_kept(t, rest, known);
    first_named_is_read(o, "text"@, 0);
    assert forall|j: int| 0 <= j < rest.len() implies (#[trigger] rest[j]).0 != "thought"@ by {
        assert(!known.contains(rest[j].0));
    }
    if signature is Some {
        assert(o[2] == t[2]);
        first_named_is_read(o, "thoughtSignature"@, 2);
    } else {
        not_there(t, rest, known, "thoughtSignature"@);
    }
    not_there(t, rest, known, "inlineData"@);
    not_there(t, rest, known, "functionCall"@);
    not_there(t, rest, known, "functionResponse"@);
    not_there(t, rest, known, "fileData"@);
    let p = PartV {
        text: Some(text),
        inline_data: None,
        function_call: None,
        function_response: None,
        file_data: None,
        thought: Some(true),
        thought_signature: signature,
        extra: rest,
    };
    assert(decode_part(JsonV::Object(o)) == Ok::<PartV, Seq<char>>(p));
    absent_is_not_read(rest, "thought"@, yes);
    assert(rest.push(("thought"@, yes)) =~= ns);
}

/// A media block of a tool result that this format can carry.
pub open spec fn plain_media(b: ToolOutputBlockV) -> bool {
    match b {
        ToolOutputBlockV::Image { source, cache, extra } => source is Base64 && cache is None && tidy_for(
            GOOGLE_GENERATE_CONTENT@,
            extra,
            function_response_part_keys(),
        ),
        ToolOutputBlockV::Opaque { format, value } => format == GOOGLE_GENERATE_CONTENT@ && match decode_function_response_part(
            value,
        ) {
            Ok(p) => p.inline_data is None && encode_function_response_part(p) == value,
            Err(_) => false,
        },
        _ => false,
    }
}

/// Number of leading text blocks, one at most.
pub open spec fn lead(content: Seq<ToolOutputBlockV>) -> int {
    if content.len() > 0 && content[0] is Text { 1 } else { 0 }
}

/// The content of a tool result that this format can carry: perhaps one text,
/// then media. A failed call has a text.
pub open spec fn plain_result(content: Seq<ToolOutputBlockV>, is_error: Option<bool>) -> bool {
    &&& lead(content) == 1 ==> content[0] == text_output(content[0]->Text_text)
    &&& is_error == Some(true) ==> lead(content) == 1
    &&& is_error != Some(false)
    &&& forall|i: int| lead(content) <= i < content.len() ==> plain_media(#[trigger] content[i])
}

/// The wire value of a media block reads as the block.
pub open spec fn media_reads(v: JsonV, b: ToolOutputBlockV) -> bool {
    match decode_function_response_part(v) {
        Ok(p) => media_block(p) == b,
        Err(_) => false,
    }
}

proof fn media_is_written(r: ResultV, b: ToolOutputBlockV, ptr: Seq<char>)
    requires
        plain_media(b),
    ensures
        ({
            let n = result_step(r, b, ptr);
            &&& n.texts == r.texts
            &&& n.order_lost == r.order_lost
            &&& n.sink.warnings == r.sink.warnings
            &&& n.media.len() == r.media.len() + 1
            &&& n.media.drop_last() == r.media
            &&& media_reads(n.media.last(), b)
        }),
{
    let n = result_step(r, b, ptr);
    assert(n.media.drop_last() =~= r.media);
    match b {
        ToolOutputBlockV::Image { source, cache, extra } => {
            let known = function_response_part_keys();
            assert(known[0] == "inlineData"@);
            let media_type = source->Base64_media_type;
            let data = source->Base64_data;
            let blob = object2("mimeType"@, JsonV::Str(media_type), "data"@, JsonV::Str(data));
            let t = seq![("inlineData"@, blob)];
            let ns = extra_ns(extra, GOOGLE_GENERATE_CONTENT@);
            assert(within(t, known));
            provider_data_survives(GOOGLE_GENERATE_CONTENT@, t, ns, known);
            there(t, ns, "inlineData"@, 0);
            let none = Seq::<(Seq<char>, JsonV)>::empty();
            blob_is_decoded(media_type, data, none);
            assert(blob_members(media_type, data) + none =~= blob_members(media_type, data));
            assert(n.media.last() == JsonV::Object(t + ns));
        },
        _ => {},
    }
}

proof fn result_is_written(content: Seq<ToolOutputBlockV>, is_error: Option<bool>, ptr: Seq<char>, s: SinkV, n: nat)
    requires
        plain_result(content, is_error),
        lead(content) <= n <= content.len(),
    ensures
        ({
            let r = result_blocks(content, ptr, s, n);
            &&& r.texts == (if lead(content) == 1 {
                seq![content[0]->Text_text]
            } else {
                Seq::<Seq<char>>::empty()
            })
            &&& !r.order_lost
            &&& r.sink.warnings == s.warnings
            &&& r.media.len() == n - lead(content)
            &&& forall|i: int|
                0 <= i < r.media.len() ==> media_reads(#[trigger] r.media[i], content[lead(content) + i])
        }),
    decreases n,
{
    let h = lead(content);
    if n == h {
        if h == 1 {
            reveal(extra_get);
            assert(result_blocks(content, ptr, s, 0).media.len() == 0);
            let r = result_step(result_blocks(content, ptr, s, 0), content[0], ptr);
            assert(result_blocks(content, ptr, s, 1) == r);
            assert(r.texts =~= seq![content[0]->Text_text]);
        }
    } else {
        let q = (n - 1) as nat;
        result_is_written(content, is_error, ptr, s, q);
        let prev = result_blocks(content, ptr, s, q);
        assert(plain_media(content[q as int]));
        media_is_written(prev, content[q as int], ptr);
        let r = result_blocks(content, ptr, s, n);
        assert forall|i: int| 0 <= i < r.media.len() implies media_reads(#[trigger] r.media[i], content[h + i]) by {
            if i < prev.media.len() {
                assert(r.media.drop_last()[i] == r.media[i]);
                assert(media_reads(prev.media[i], content[h + i]));
            } else {
                assert(r.media[i] == r.media.last());
            }
        }
    }
}

proof fn media_is_decoded(media: Seq<JsonV>, content: Seq<ToolOutputBlockV>, h: int, n: nat)
    requires
        0 <= h,
        media.len() + h == content.len(),
        n <= media.len(),
        forall|i: int| 0 <= i < media.len() ==> media_reads(#[trigger] media[i], content[h + i]),
    ensures
        match decode_vec_function_response_part(media, n) {
            Ok(p) => p.len() == n && with_media(content.take(h), p, n) == content.take(h + n),
            Err(_) => false,
        },
    decreases n,
{
    if n > 0 {
        let q = (n - 1) as nat;
        media_is_decoded(media, content, h, q);
        assert(media_reads(media[q as int], content[h + q]));
        let prev = decode_vec_function_response_part(media, q)->Ok_0;
        let all = decode_vec_function_response_part(media, n)->Ok_0;
        media_prefix(content.take(h), prev, all, q);
        assert(content.take(h + q).push(content[h + q]) =~= content.take(h + n));
    }
}

proof fn media_prefix(content: Seq<ToolOutputBlockV>, a: Seq<FunctionResponsePartV>, b: Seq<FunctionResponsePartV>, n: nat)
    requires
        n <= a.len() <= b.len(),
        forall|i: int| 0 <= i < a.len() ==> (#[trigger] a[i]) == b[i],
    ensures
        with_media(content, a, n) == with_media(content, b, n),
    decreases n,
{
    if n > 0 {
        media_prefix(content, a, b, (n - 1) as nat);
        assert(a[n - 1] == b[n - 1]);
    }
}

/// The text and the failure of a result are read back from its `response`.
proof fn response_is_read(texts: Seq<Seq<char>>, is_error: Option<bool>, fields: ObjV, loc: Seq<char>, ws: Seq<ConversionWarningV>)
    requires
        texts.len() <= 1,
        is_error == Some(true) ==> texts.len() == 1,
        is_error != Some(false),
    ensures
        ({
            let v = response_value(texts, is_error);
            let (r, ws1) = response_read(Some(v), fields, loc, ws);
            &&& ws1 == ws
            &&& r.content == (if texts.len() == 1 { seq![text_output(texts[0])] } else { Seq::empty() })
            &&& r.is_error == is_error
            &&& r.fields == fields
        }),
{
    call_names();
    reveal(obj_remove);
    let sep = "\n\n"@;
    if is_error is Some {
        assert(is_error == Some(is_error->0));
    }
    let none = Seq::<(Seq<char>, JsonV)>::empty();
    if texts.len() == 1 {
        assert(texts =~= seq![texts[0]]);
        assert(joined(texts, sep) == texts[0]);
        let k = if is_error == Some(true) { "error"@ } else { "output"@ };
        let o = seq![(k, JsonV::Str(texts[0]))];
        first_named_is_read(o, k, 0);
        assert(obj_remove(o, k) =~= none);
        assert(response_value(texts, is_error) == JsonV::Object(o));
        if is_error is None {
            absent_is_not_read(o, "error"@, JsonV::Null);
        }
    } else {
        absent_is_not_read(none, "error"@, JsonV::Null);
        absent_is_not_read(none, "output"@, JsonV::Null);
        assert(response_value(texts, is_error) == JsonV::Object(none));
    }
}

/// The fields of a function response.
spec fn response_list(id: Option<Seq<char>>, name: Seq<char>, response: JsonV, media: Seq<JsonV>) -> Seq<
    (Seq<char>, Option<JsonV>),
> {
    seq![
        ("id"@, str_opt(id)),
        ("name"@, Some(JsonV::Str(name))),
        ("response"@, Some(response)),
        ("parts"@, if media.len() > 0 { Some(JsonV::Array(media)) } else { None }),
    ]
}

/// A function response is read back, with what stands beside its members.
proof fn response_is_decoded(
    id: Option<Seq<char>>,
    name: Seq<char>,
    response: JsonV,
    media: Seq<JsonV>,
    parts: Seq<FunctionResponsePartV>,
    q: ObjV,
)
    requires
        !(response is Null),
        media.len() > 0 ==> decode_vec_function_response_part(media, media.len()) == Ok::<
            Seq<FunctionResponsePartV>,
            Seq<char>,
        >(parts),
        avoids(q, function_response_keys()),
    ensures
        ({
            let o = put_all(response_list(id, name, response, media), 4);
            &&& within(o, function_response_keys())
            &&& response_part(id, name, response, media) == object1("functionResponse"@, JsonV::Object(o))
            &&& decode_function_response(JsonV::Object(o + q)) == Ok::<FunctionResponseV, Seq<char>>(
                FunctionResponseV {
                    id,
                    name: Some(name),
                    response: Some(response),
                    parts: if media.len() > 0 { Some(parts) } else { None },
                    extra: q,
                },
            )
        }),
{
    call_names();
    let known = function_response_keys();
    let l = response_list(id, name, response, media);
    assert(known[0] == "id"@ && known[1] == "name"@ && known[2] == "response"@ && known[3] == "parts"@);
    assert forall|i: int| 0 <= i < l.len() implies known.contains((#[trigger] l[i]).0) by {
        assert(l[i].0 == known[i]);
    }
    let o = put_all(l, 4);
    put_fields_are_known(l, 4, known);
    assert(put_all(l, 1) == put_if(put_all(l, 0), l[0].0, l[0].1));
    assert(put_all(l, 2) == put_if(put_all(l, 1), l[1].0, l[1].1));
    assert(put_all(l, 3) == put_if(put_all(l, 2), l[2].0, l[2].1));
    assert(put_all(l, 4) == put_if(put_all(l, 3), l[3].0, l[3].1));
    assert forall|i: int| 0 <= i < l.len() implies obj_get(o + q, (#[trigger] l[i]).0) == l[i].1 by {
        put_fields_are_read(l, 4, i);
        assert(known.contains(l[i].0));
        front_members_are_read(o, q, known, l[i].0);
    }
    assert(obj_get(o + q, l[0].0) == l[0].1 && obj_get(o + q, l[1].0) == l[1].1 && obj_get(o + q, l[2].0) == l[2].1
        && obj_get(o + q, l[3].0) == l[3].1);
    unmodeled_members_are_kept(o, q, known);
}

/// A tool result is read back from the part that it becomes.
pub proof fn result_round_trip(
    id: Option<Seq<char>>,
    name: Seq<char>,
    content: Seq<ToolOutputBlockV>,
    is_error: Option<bool>,
    extra: ExtraV,
    names: ObjV,
    ptr: Seq<char>,
    s: SinkV,
    loc: Seq<char>,
    ws: Seq<ConversionWarningV>,
)
    requires
        member_data(extra, "functionResponse"@, function_response_keys()),
        plain_result(content, is_error),
    ensures
        match tool_result_part(id, Some(name), content, is_error, names, ptr, s) {
            Ok((w, s1)) => {
                let b = ContentBlockV::ToolResult {
                    tool_call_id: id,
                    name: Some(name),
                    content,
                    is_error,
                    cache: None,
                    extra,
                };
                &&& s1.warnings == s.warnings
                &&& match decode_part(extra_merged(extra, GOOGLE_GENERATE_CONTENT@, w)) {
                    Ok(p) => {
                        &&& p.function_response is Some
                        &&& member_count(p) == 1
                        &&& result_block(p, p.function_response->0, loc, ws) == (b, ws)
                    },
                    Err(_) => false,
                }
            },
            Err(_) => false,
        },
{
    part_names();
    let k = part_keys();
    assert(k.contains(k[0]) && k.contains(k[1]) && k.contains(k[2]) && k.contains(k[3]) && k.contains(k[4])
        && k.contains(k[5]));
    let key = "functionResponse"@;
    let ns = extra_ns(extra, GOOGLE_GENERATE_CONTENT@);
    let q = nested_data(ns, key);
    outer_is_clean(ns, key);
    let h = lead(content);
    result_is_written(content, is_error, ptr, s, content.len());
    let r = result_blocks(content, ptr, s, content.len());
    media_is_decoded(r.media, content, h, r.media.len());
    let parts = decode_vec_function_response_part(r.media, r.media.len())->Ok_0;
    let response = response_value(r.texts, is_error);
    response_is_read(r.texts, is_error, q, loc, ws);
    response_is_decoded(id, name, response, r.media, parts, q);
    let fr = FunctionResponseV {
        id,
        name: Some(name),
        response: Some(response),
        parts: if r.media.len() > 0 { Some(parts) } else { None },
        extra: q,
    };
    nested_member(key, put_all(response_list(id, name, response, r.media), 4), extra, function_response_keys());
    let p = PartV { function_response: Some(fr), ..plain_part(outer_extra(extra, key)) };
    let v = extra_merged(extra, GOOGLE_GENERATE_CONTENT@, response_part(id, name, response, r.media));
    assert(decode_part(v) == Ok::<PartV, Seq<char>>(p));
    fields_survive(p, outer_extra(extra, key));
    assert(content.take(content.len() as int) =~= content);
    if h == 1 {
        assert(content.take(1) =~= seq![content[0]]);
    } else {
        assert(content.take(0) =~= Seq::<ToolOutputBlockV>::empty());
    }
    if r.media.len() == 0 {
        assert(with_media(content.take(h), parts, 0) == content.take(h));
    }
}

/// A part that a parse keeps verbatim on the side of this role.
pub open spec fn verbatim_part(role: Role, value: JsonV) -> bool {
    match decode_part(value) {
        Ok(p) => encode_part(p) == value && (member_count(p) != 1 || (role == Role::Assistant && p.function_response is Some)
            || (role == Role::User && p.function_call is Some) || (role == Role::User && p.text is Some && p.thought
            == Some(true))),
        Err(_) => false,
    }
}

/// A block that this format can carry in a message of this role.
pub open spec fn plain_block(role: Role, b: ContentBlockV) -> bool {
    match b {
        ContentBlockV::Text { text, cache, extra } => role != Role::Tool && cache is None && part_data(extra),
        ContentBlockV::Image { source, cache, extra } => (role == Role::User || role == Role::Assistant) && cache is None
            && image_data(source, extra),
        ContentBlockV::ToolCall { id, name, arguments, cache, extra } => role == Role::Assistant && cache is None
            && plain_arguments(arguments) && member_data(extra, "functionCall"@, function_call_keys()),
        ContentBlockV::ToolResult { tool_call_id, name, content, is_error, cache, extra } => role == Role::Tool
            && name is Some && cache is None && plain_result(content, is_error) && member_data(
            extra,
            "functionResponse"@,
            function_response_keys(),
        ),
        ContentBlockV::Thinking { text, signature, extra } => role == Role::Assistant && text is Some && thought_data(
            extra,
        ),
        ContentBlockV::Opaque { format, value } => format == GOOGLE_GENERATE_CONTENT@ && (role == Role::User || role
            == Role::Assistant) && verbatim_part(role, value),
    }
}

/// The block that a part of a message of this role holds.
pub open spec fn read_part(role: Role, p: PartV, loc: Seq<char>, ws: Seq<ConversionWarningV>) -> (
    ContentBlockV,
    Seq<ConversionWarningV>,
) {
    match role {
        Role::Assistant => {
            let (a, ws1) = classified(p, loc, ws);
            (part_block(a), ws1)
        },
        Role::Tool => result_block(p, p.function_response->0, loc, ws),
        _ => (user_part(p), ws),
    }
}

/// The part is a function response and nothing else.
pub open spec fn is_result(p: PartV) -> bool {
    p.function_response is Some && member_count(p) == 1
}

/// A block is read back from the part that it becomes, without a warning on
/// either side, and a tool result is told apart from other blocks.
pub proof fn block_round_trip(
    role: Role,
    b: ContentBlockV,
    st: PartsV,
    ptr: Seq<char>,
    as_text: bool,
    loc: Seq<char>,
    ws: Seq<ConversionWarningV>,
)
    requires
        plain_block(role, b),
    ensures
        allowed(role, b),
        match part_step(st, b, ptr, as_text) {
            Ok(n) => {
                &&& n.parts.len() == st.parts.len() + 1
                &&& n.parts.drop_last() == st.parts
                &&& n.sink.warnings == st.sink.warnings
                &&& match decode_part(n.parts.last()) {
                    Ok(p) => read_part(role, p, loc, ws) == (b, ws) && (role != Role::Assistant ==> is_result(p) == (role
                        == Role::Tool)),
                    Err(_) => false,
                }
            },
            Err(_) => false,
        },
{
    let n = part_step(st, b, ptr, as_text)->Ok_0;
    match b {
        ContentBlockV::Text { text, cache, extra } => {
            text_round_trip(text, extra, loc, ws);
            assert(n.parts.drop_last() =~= st.parts);
        },
        ContentBlockV::Image { source, cache, extra } => {
            image_round_trip(source, extra, ptr, st.sink, loc, ws);
            assert(n.parts.drop_last() =~= st.parts);
        },
        ContentBlockV::ToolCall { id, name, arguments, cache, extra } => {
            call_round_trip(id, name, arguments, extra, ptr, loc, ws);
            assert(n.parts.drop_last() =~= st.parts);
        },
        ContentBlockV::ToolResult { tool_call_id, name, content, is_error, cache, extra } => {
            result_round_trip(tool_call_id, name->0, content, is_error, extra, st.names, ptr, st.sink, loc, ws);
            assert(n.parts.drop_last() =~= st.parts);
        },
        ContentBlockV::Thinking { text, signature, extra } => {
            thought_round_trip(text->0, signature, extra, as_text, ptr, st.sink, loc, ws);
            assert(n.parts.drop_last() =~= st.parts);
        },
        ContentBlockV::Opaque { format, value } => {
            assert(n.parts.drop_last() =~= st.parts);
        },
    }
}

} // verus!
