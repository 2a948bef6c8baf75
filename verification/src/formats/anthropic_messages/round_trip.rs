//! Laws: what the build side writes, the parse side reads back as it was.

use vstd::prelude::*;
use crate::merge::{merged};
use crate::convert::ConversionWarningV;
use crate::decode::unknown;
use crate::format::ANTHROPIC_MESSAGES;
use crate::formats::anthropic_messages::blocks::{block_value, cache_control, finished, image_source, image_value, nested_parts, nested_step, text_value, thinking_block_value, with_cache, with_result_content};
use crate::formats::anthropic_messages::parse_blocks::{leftover, parsed_assistant, parsed_nested, parsed_nested_all, parsed_text, parsed_tool_result, parsed_user, source_of, split_cache, type_of};
use crate::formats::anthropic_messages::types::{cache_control_keys, decode_cache_control, decode_image_source_param, image_block_keys, opt_cache_control, redacted_thinking_block_keys, text_block_keys, thinking_block_keys, tool_result_block_keys, tool_use_block_keys, CacheControlV};
use crate::ir::{extra_get, extra_has, extra_index_from, extra_merged, extra_ns, non_null, text_output, CacheHintV, ContentBlockV, ExtraV, ImageSourceV, Role, ToolOutputBlockV};
use crate::json::{obj_get, obj_remove, obj_wf, JsonV, ObjV};
use crate::json_laws::set_keeps_other_members;
use crate::namespaces::{absent, absent_is_not_read, avoids, clean, data_under, deep_data_is_read, first_named_is_read, member_nests, namespace_holds_its_members, new_members_are_appended, not_there, null_free_prefix, provider_data_survives, removing_nothing, there, tidy_for, two_level, two_levels_are_merged, unmodeled_member_is_read, unmodeled_members_are_kept, within};
use crate::sink::SinkV;
use crate::value::{json_from_str, plain_arguments};

verus! {

/// The data is this format's own, and a merge beside members named `known`
/// keeps it.
pub open spec fn own_data(e: ExtraV, known: Seq<Seq<char>>) -> bool {
    tidy_for(ANTHROPIC_MESSAGES@, e, known)
}

pub proof fn block_names()
    ensures
        "type"@ != "text"@,
        "type"@ != "cache_control"@,
        "text"@ != "cache_control"@,
        "type"@ != "source"@,
        "source"@ != "cache_control"@,
        "type"@ != "id"@,
        "type"@ != "name"@,
        "type"@ != "input"@,
        "id"@ != "name"@,
        "id"@ != "input"@,
        "name"@ != "input"@,
        "id"@ != "cache_control"@,
        "name"@ != "cache_control"@,
        "input"@ != "cache_control"@,
        "type"@ != "ttl"@,
        "type"@ != "thinking"@,
        "type"@ != "signature"@,
        "thinking"@ != "signature"@,
        "type"@ != "data"@,
        "type"@ != "tool_use_id"@,
        "type"@ != "content"@,
        "type"@ != "is_error"@,
        "tool_use_id"@ != "content"@,
        "tool_use_id"@ != "is_error"@,
        "content"@ != "is_error"@,
        "tool_use_id"@ != "cache_control"@,
        "content"@ != "cache_control"@,
        "is_error"@ != "cache_control"@,
{
    reveal_strlit("type");
    reveal_strlit("text");
    reveal_strlit("cache_control");
    reveal_strlit("source");
    reveal_strlit("id");
    reveal_strlit("name");
    reveal_strlit("input");
    reveal_strlit("ttl");
    reveal_strlit("thinking");
    reveal_strlit("signature");
    reveal_strlit("data");
    reveal_strlit("tool_use_id");
    reveal_strlit("content");
    reveal_strlit("is_error");
    assert("type"@[1] == 'y' && "text"@[1] == 'e' && "name"@[1] == 'a' && "data"@[1] == 'a');
    assert("type"@.len() == 4 && "text"@.len() == 4 && "cache_control"@.len() == 13 && "source"@.len() == 6 && "id"@.len()
        == 2 && "name"@.len() == 4 && "input"@.len() == 5 && "ttl"@.len() == 3);
    assert("thinking"@.len() == 8 && "signature"@.len() == 9 && "data"@.len() == 4 && "tool_use_id"@.len() == 11
        && "content"@.len() == 7 && "is_error"@.len() == 8);
}

pub proof fn kind_names()
    ensures
        "text"@ != "tool_use"@,
        "text"@ != "thinking"@,
        "text"@ != "redacted_thinking"@,
        "tool_use"@ != "thinking"@,
        "tool_use"@ != "redacted_thinking"@,
        "thinking"@ != "redacted_thinking"@,
        "text"@ != "image"@,
        "text"@ != "tool_result"@,
        "image"@ != "tool_result"@,
{
    reveal_strlit("text");
    reveal_strlit("tool_result");
    reveal_strlit("tool_use");
    reveal_strlit("thinking");
    reveal_strlit("redacted_thinking");
    reveal_strlit("image");
    assert("tool_use"@[1] == 'o' && "thinking"@[1] == 'h');
    assert("text"@.len() == 4 && "tool_use"@.len() == 8 && "thinking"@.len() == 8 && "redacted_thinking"@.len() == 17
        && "tool_result"@.len() == 11 && "image"@.len() == 5);
}

/// A node with the hint of a block.
pub open spec fn hinted(t: ObjV, cache: Option<CacheHintV>) -> ObjV {
    match cache {
        Some(h) => t.push(("cache_control"@, cache_control(h))),
        None => t,
    }
}

/// The typed form of a hint, with what stands beside it.
pub open spec fn hint_wire(cache: Option<CacheHintV>, q: ObjV) -> Option<CacheControlV> {
    match cache {
        Some(h) => Some(CacheControlV { kind: "ephemeral"@, ttl: h.ttl, extra: q }),
        None => None,
    }
}

/// Provider data of a block or tool that the wire keeps as it is: unmodeled
/// members, then data of its cache hint, if it has one.
pub open spec fn node_data(e: ExtraV, cache: Option<CacheHintV>, known: Seq<Seq<char>>) -> bool {
    let ns = extra_ns(e, ANTHROPIC_MESSAGES@);
    &&& e == leftover(ns)
    &&& clean(ns)
    &&& two_level(ns, "cache_control"@, known, cache_control_keys())
    &&& cache is None ==> obj_get(ns, "cache_control"@) is None
}

/// A cache hint is read back from the `cache_control` that it becomes, with
/// what stands beside it.
proof fn hint_is_decoded(h: CacheHintV, q: ObjV)
    requires
        avoids(q, cache_control_keys()),
    ensures
        cache_control(h) is Object,
        within(cache_control(h)->Object_0, cache_control_keys()),
        decode_cache_control(JsonV::Object(cache_control(h)->Object_0 + q)) == Ok::<CacheControlV, Seq<char>>(
            CacheControlV { kind: "ephemeral"@, ttl: h.ttl, extra: q },
        ),
{
    block_names();
    let known = cache_control_keys();
    assert(known[0] == "type"@ && known[1] == "ttl"@);
    let t = match h.ttl {
        Some(x) => seq![("type"@, JsonV::Str("ephemeral"@)), ("ttl"@, JsonV::Str(x))],
        None => seq![("type"@, JsonV::Str("ephemeral"@))],
    };
    assert(within(t, known));
    unmodeled_members_are_kept(t, q, known);
    there(t, q, "type"@, 0);
    if h.ttl is Some {
        there(t, q, "ttl"@, 1);
    } else {
        not_there(t, q, known, "ttl"@);
    }
}

/// A node keeps its cache hint and its provider data.
pub proof fn node_survives(t: ObjV, cache: Option<CacheHintV>, extra: ExtraV, known: Seq<Seq<char>>)
    requires
        node_data(extra, cache, known),
        obj_wf(t),
        within(t, known),
        known.contains("cache_control"@),
        absent(t, "cache_control"@),
    ensures
        ({
            let ns = extra_ns(extra, ANTHROPIC_MESSAGES@);
            let o = merged(hinted(t, cache), ns);
            let cc = hint_wire(cache, data_under(ns, "cache_control"@));
            let rest = unknown(o, known);
            &&& extra_merged(extra, ANTHROPIC_MESSAGES@, with_cache(JsonV::Object(t), cache)) == JsonV::Object(o)
            &&& opt_cache_control(o, "cache_control"@) == Ok::<Option<CacheControlV>, Seq<char>>(cc)
            &&& split_cache(cc, rest) == (cache, ns)
            &&& leftover(ns) == extra
            &&& forall|k: Seq<char>| known.contains(k) && k != "cache_control"@ ==> #[trigger] obj_get(o, k) == obj_get(
                t,
                k,
            )
            &&& forall|k: Seq<char>| !known.contains(k) ==> #[trigger] obj_get(o, k) == obj_get(ns, k)
        }),
{
    let key = "cache_control"@;
    let ns = extra_ns(extra, ANTHROPIC_MESSAGES@);
    let q = data_under(ns, key);
    let h = hinted(t, cache);
    let o = merged(h, ns);
    let none = Seq::<(Seq<char>, JsonV)>::empty();
    match cache {
        Some(c) => {
            absent_is_not_read(t, key, cache_control(c));
            hint_is_decoded(c, q);
            hint_is_decoded(c, none);
            assert(cache_control(c)->Object_0 + none =~= cache_control(c)->Object_0);
            assert forall|j: int| 0 <= j < t.len() implies (#[trigger] h[j]).0 != key by {
                assert(h[j] == t[j]);
            }
            first_named_is_read(h, key, t.len() as int);
        },
        None => {
            absent_is_not_read(t, key, JsonV::Null);
        },
    }
    assert(obj_wf(h)) by {
        assert forall|i: int, j: int| 0 <= i < j < h.len() implies #[trigger] h[i].0 != #[trigger] h[j].0 by {
            assert(h[i] == t[i]);
            if j < t.len() {
                assert(h[j] == t[j]);
            }
        }
    }
    assert(within(h, known)) by {
        assert forall|j: int| 0 <= j < h.len() implies known.contains((#[trigger] h[j]).0) by {
            if j < t.len() {
                assert(h[j] == t[j]);
            }
        }
    }
    two_levels_are_merged(h, ns, key, known, cache_control_keys());
    member_nests(ns, known, key);
    deep_data_is_read(none, ns, key);
    data_is_kept(q);
    assert forall|k: Seq<char>| known.contains(k) && k != key implies #[trigger] obj_get(o, k) == obj_get(t, k) by {
        if cache is Some {
            set_keeps_other_members(t, key, cache_control(cache->0), k);
        }
    }
    assert forall|k: Seq<char>| !known.contains(k) implies #[trigger] obj_get(o, k) == obj_get(ns, k) by {
        assert forall|j: int| 0 <= j < h.len() implies (#[trigger] h[j]).0 != k by {
            assert(known.contains(h[j].0));
        }
        unmodeled_member_is_read(h, ns, k);
    }
    if q.len() == 0 {
        assert(q =~= none);
    }
}

/// Clean data holds no `null` to leave out.
proof fn data_is_kept(q: ObjV)
    requires
        clean(q),
    ensures
        non_null(q, q.len()) == q,
{
    namespace_holds_its_members(ANTHROPIC_MESSAGES@, q);
    reveal(extra_get);
    let e = leftover(q);
    if q.len() > 0 {
        assert(non_null(q, q.len()).len() > 0);
        assert(e[0].0 == ANTHROPIC_MESSAGES@);
        assert(extra_index_from(e, ANTHROPIC_MESSAGES@, 0) == 0);
        assert(e[0].1 == non_null(q, q.len()));
    } else {
        assert(non_null(q, 0) =~= q);
    }
}

/// A text block is read back from what it becomes.
pub proof fn text_round_trip(text: Seq<char>, cache: Option<CacheHintV>, extra: ExtraV, loc: Seq<char>, s: SinkV, at: Seq<char>, ws: Seq<ConversionWarningV>)
    requires
        node_data(extra, cache, text_block_keys()),
    ensures
        ({
            let (v, s1) = finished(text_value(text), cache, extra, loc, s);
            &&& v is Some
            &&& s1.warnings == s.warnings
            &&& type_of(v->0) == Some("text"@)
            &&& parsed_text(v->0, at, ws) == (ContentBlockV::Text { text, cache, extra }, ws)
        }),
{
    block_names();
    let known = text_block_keys();
    assert(known[0] == "type"@ && known[1] == "text"@ && known[2] == "cache_control"@);
    let t = seq![("type"@, JsonV::Str("text"@)), ("text"@, JsonV::Str(text))];
    node_survives(t, cache, extra, known);
    first_named_is_read(t, "type"@, 0);
    first_named_is_read(t, "text"@, 1);
    assert(known.contains("type"@) && known.contains("text"@));
}

pub proof fn source_is_decoded(source: ImageSourceV)
    ensures
        match decode_image_source_param(image_source(source)) {
            Ok(p) => source_of(p) == source,
            Err(_) => false,
        },
{
    reveal_strlit("type");
    reveal_strlit("base64");
    reveal_strlit("url");
    reveal_strlit("file");
    reveal_strlit("media_type");
    reveal_strlit("data");
    reveal_strlit("file_id");
    assert("type"@[0] == 't' && "data"@[0] == 'd');
    assert("base64"@.len() == 6 && "url"@.len() == 3 && "file"@.len() == 4 && "type"@.len() == 4 && "media_type"@.len()
        == 10 && "data"@.len() == 4 && "file_id"@.len() == 7);
    match source {
        ImageSourceV::Url(url) => {
            let o = seq![("type"@, JsonV::Str("url"@)), ("url"@, JsonV::Str(url))];
            first_named_is_read(o, "type"@, 0);
            first_named_is_read(o, "url"@, 1);
        },
        ImageSourceV::Base64 { media_type, data } => {
            let o = seq![
                ("type"@, JsonV::Str("base64"@)),
                ("media_type"@, JsonV::Str(media_type)),
                ("data"@, JsonV::Str(data)),
            ];
            first_named_is_read(o, "type"@, 0);
            first_named_is_read(o, "media_type"@, 1);
            first_named_is_read(o, "data"@, 2);
        },
        ImageSourceV::FileId(id) => {
            let o = seq![("type"@, JsonV::Str("file"@)), ("file_id"@, JsonV::Str(id))];
            first_named_is_read(o, "type"@, 0);
            first_named_is_read(o, "file_id"@, 1);
        },
    }
}

/// An image block is read back from what it becomes.
pub proof fn image_round_trip(source: ImageSourceV, cache: Option<CacheHintV>, extra: ExtraV, loc: Seq<char>, s: SinkV, at: Seq<char>, ws: Seq<ConversionWarningV>)
    requires
        node_data(extra, cache, image_block_keys()),
    ensures
        ({
            let (v, s1) = finished(image_value(source), cache, extra, loc, s);
            &&& v is Some
            &&& s1.warnings == s.warnings
            &&& parsed_user(v->0, at, ws) == (ContentBlockV::Image { source, cache, extra }, ws)
        }),
{
    block_names();
    kind_names();
    let known = image_block_keys();
    assert(known[0] == "type"@ && known[1] == "source"@ && known[2] == "cache_control"@);
    let t = seq![("type"@, JsonV::Str("image"@)), ("source"@, image_source(source))];
    node_survives(t, cache, extra, known);
    first_named_is_read(t, "type"@, 0);
    first_named_is_read(t, "source"@, 1);
    assert(known.contains("type"@) && known.contains("source"@));
    source_is_decoded(source);
}

/// A tool call is read back from what it becomes.
pub proof fn tool_call_round_trip(
    id: Seq<char>,
    name: Seq<char>,
    arguments: Seq<char>,
    cache: Option<CacheHintV>,
    extra: ExtraV,
    loc: Seq<char>,
    ir_loc: Seq<char>,
    as_text: bool,
    s: SinkV,
    at: Seq<char>,
    ws: Seq<ConversionWarningV>,
)
    requires
        node_data(extra, cache, tool_use_block_keys()),
        plain_arguments(arguments),
    ensures
        ({
            let b = ContentBlockV::ToolCall { id: Some(id), name, arguments, cache, extra };
            match block_value(Role::Assistant, b, loc, ir_loc, as_text, s) {
                Ok((Some(v), s1)) => s1.warnings == s.warnings && parsed_assistant(v, at, ws) == (b, ws),
                _ => false,
            }
        }),
{
    block_names();
    kind_names();
    let known = tool_use_block_keys();
    assert(known[0] == "type"@ && known[1] == "id"@ && known[2] == "name"@ && known[3] == "input"@ && known[4]
        == "cache_control"@);
    let input = json_from_str(arguments)->Ok_0;
    let t0 = seq![("type"@, JsonV::Str("tool_use"@)), ("id"@, JsonV::Str(id)), ("name"@, JsonV::Str(name))];
    absent_is_not_read(t0, "input"@, input);
    let t = t0.push(("input"@, input));
    assert(within(t, known));
    node_survives(t, cache, extra, known);
    first_named_is_read(t, "type"@, 0);
    first_named_is_read(t, "id"@, 1);
    first_named_is_read(t, "name"@, 2);
    first_named_is_read(t, "input"@, 3);
    assert(known.contains("type"@) && known.contains("id"@) && known.contains("name"@) && known.contains("input"@));
}

/// Names that the data of a thinking block leaves alone.
pub open spec fn thinking_names() -> Seq<Seq<char>> {
    seq!["type"@, "thinking"@, "signature"@, "redacted"@]
}

/// A thinking block of this format: its text is there, and a signature or data
/// of this format says where it comes from.
pub open spec fn plain_thinking(text: Option<Seq<char>>, signature: Option<Seq<char>>, extra: ExtraV) -> bool {
    &&& text is Some
    &&& own_data(extra, thinking_names())
    &&& signature is Some || extra_has(extra, ANTHROPIC_MESSAGES@)
}

/// A thinking block is read back from what it becomes.
pub proof fn thinking_round_trip(
    text: Seq<char>,
    signature: Option<Seq<char>>,
    extra: ExtraV,
    loc: Seq<char>,
    as_text: bool,
    s: SinkV,
    at: Seq<char>,
    ws: Seq<ConversionWarningV>,
)
    requires
        plain_thinking(Some(text), signature, extra),
    ensures
        match thinking_block_value(Some(text), signature, extra, loc, as_text, s) {
            Ok((Some(v), s1)) => s1.warnings == s.warnings && parsed_assistant(v, at, ws) == (
                ContentBlockV::Thinking { text: Some(text), signature, extra },
                ws,
            ),
            _ => false,
        },
{
    block_names();
    kind_names();
    let names = thinking_names();
    assert(names[0] == "type"@ && names[1] == "thinking"@ && names[2] == "signature"@ && names[3] == "redacted"@);
    let known = thinking_block_keys();
    assert(known[0] == "type"@ && known[1] == "thinking"@ && known[2] == "signature"@);
    let ns = extra_ns(extra, ANTHROPIC_MESSAGES@);
    let none = Seq::<(Seq<char>, JsonV)>::empty();
    namespace_holds_its_members(ANTHROPIC_MESSAGES@, ns);
    assert(none + ns =~= ns);
    not_there(none, ns, names, "redacted"@);
    assert(absent(ns, "redacted"@)) by {
        assert forall|j: int| 0 <= j < ns.len() implies (#[trigger] ns[j]).0 != "redacted"@ by {
            assert(!names.contains(ns[j].0));
        }
    }
    removing_nothing(ns, "redacted"@);
    assert(avoids(ns, known)) by {
        assert forall|j: int| 0 <= j < ns.len() implies !known.contains((#[trigger] ns[j]).0) by {
            assert(!names.contains(ns[j].0));
            if known.contains(ns[j].0) {
                let i = choose|i: int| 0 <= i < known.len() && known[i] == ns[j].0;
                assert(names[i] == known[i]);
            }
        }
    }
    let t0 = seq![("type"@, JsonV::Str("thinking"@)), ("thinking"@, JsonV::Str(text))];
    let t = match signature {
        Some(sig) => t0.push(("signature"@, JsonV::Str(sig))),
        None => t0,
    };
    if signature is Some {
        absent_is_not_read(t0, "signature"@, JsonV::Str(signature->0));
    }
    assert(within(t, known));
    provider_data_survives(ANTHROPIC_MESSAGES@, t, ns, known);
    there(t, ns, "type"@, 0);
    there(t, ns, "thinking"@, 1);
    if signature is Some {
        there(t, ns, "signature"@, 2);
    } else {
        not_there(t, ns, known, "signature"@);
    }
    if ns.len() == 0 {
        assert(t + ns =~= t);
    }
    let v = JsonV::Object(t + ns);
    assert(type_of(v) == Some("thinking"@));
}

/// Names that the data of redacted thinking leaves alone.
pub open spec fn redacted_names() -> Seq<Seq<char>> {
    seq!["type"@, "data"@, "redacted"@]
}

/// Data of redacted thinking: tidy data, then its mark.
pub open spec fn redacted_data(e: ExtraV) -> bool {
    let ns = extra_ns(e, ANTHROPIC_MESSAGES@);
    &&& e == leftover(ns)
    &&& clean(ns)
    &&& ns.len() > 0
    &&& ns.last() == ("redacted"@, JsonV::Bool(true))
    &&& avoids(ns.drop_last(), redacted_names())
}

/// Redacted thinking is read back from what it becomes.
pub proof fn redacted_round_trip(
    data: Seq<char>,
    extra: ExtraV,
    loc: Seq<char>,
    as_text: bool,
    s: SinkV,
    at: Seq<char>,
    ws: Seq<ConversionWarningV>,
)
    requires
        redacted_data(extra),
    ensures
        match thinking_block_value(None, Some(data), extra, loc, as_text, s) {
            Ok((Some(v), s1)) => s1.warnings == s.warnings && parsed_assistant(v, at, ws) == (
                ContentBlockV::Thinking { text: None, signature: Some(data), extra },
                ws,
            ),
            _ => false,
        },
{
    block_names();
    kind_names();
    let names = redacted_names();
    assert(names[0] == "type"@ && names[1] == "data"@ && names[2] == "redacted"@);
    let known = redacted_thinking_block_keys();
    assert(known[0] == "type"@ && known[1] == "data"@);
    let ns = extra_ns(extra, ANTHROPIC_MESSAGES@);
    let rest = ns.drop_last();
    namespace_holds_its_members(ANTHROPIC_MESSAGES@, ns);
    assert forall|j: int| 0 <= j < rest.len() implies (#[trigger] rest[j]).0 != "redacted"@ by {
        assert(!names.contains(rest[j].0));
    }
    let last = (ns.len() - 1) as int;
    assert forall|j: int| 0 <= j < last implies (#[trigger] ns[j]).0 != "redacted"@ by {
        assert(ns[j] == rest[j]);
    }
    first_named_is_read(ns, "redacted"@, last);
    assert(obj_remove(ns, "redacted"@) == rest) by {
        reveal(obj_remove);
        assert(ns.remove(last) =~= rest);
    }
    assert(obj_wf(rest)) by {
        assert forall|a: int, b: int| 0 <= a < b < rest.len() implies #[trigger] rest[a].0 != #[trigger] rest[b].0 by {
            assert(ns[a].0 != ns[b].0);
        }
    }
    null_free_prefix(ns, rest, rest.len());
    assert(avoids(rest, known)) by {
        assert forall|j: int| 0 <= j < rest.len() implies !known.contains((#[trigger] rest[j]).0) by {
            assert(!names.contains(rest[j].0));
            if known.contains(rest[j].0) {
                let i = choose|i: int| 0 <= i < known.len() && known[i] == rest[j].0;
                assert(names[i] == known[i]);
            }
        }
    }
    let t = seq![("type"@, JsonV::Str("redacted_thinking"@)), ("data"@, JsonV::Str(data))];
    assert(within(t, known));
    assert forall|j: int| 0 <= j < rest.len() implies absent(t, (#[trigger] rest[j]).0) by {
        assert(!known.contains(rest[j].0));
    }
    new_members_are_appended(t, rest, rest.len());
    assert(rest.take(rest.len() as int) =~= rest);
    unmodeled_members_are_kept(t, rest, known);
    if rest.len() == 0 {
        assert(t + rest =~= t);
    }
    there(t, rest, "type"@, 0);
    there(t, rest, "data"@, 1);
    assert(type_of(JsonV::Object(t + rest)) == Some("redacted_thinking"@));
    absent_is_not_read(rest, "redacted"@, JsonV::Bool(true));
    assert(rest.push(("redacted"@, JsonV::Bool(true))) =~= ns);
}

/// A nested block that a tool result of this format can carry.
pub open spec fn plain_nested(b: ToolOutputBlockV) -> bool {
    match b {
        ToolOutputBlockV::Text { text, cache, extra } => cache is None && own_data(extra, seq!["type"@, "text"@]),
        ToolOutputBlockV::Image { source, cache, extra } => cache is None && own_data(
            extra,
            seq!["type"@, "source"@],
        ),
        ToolOutputBlockV::Opaque { format, value } => format == ANTHROPIC_MESSAGES@ && type_of(value) != Some("text"@)
            && type_of(value) != Some("image"@),
    }
}

/// A nested block is read back from what it becomes.
pub proof fn nested_round_trip(prev: (Seq<JsonV>, SinkV), b: ToolOutputBlockV, loc: Seq<char>)
    requires
        plain_nested(b),
    ensures
        ({
            let (parts, s) = nested_step(prev, b, loc);
            &&& parts.len() == prev.0.len() + 1
            &&& parts.drop_last() == prev.0
            &&& s.warnings == prev.1.warnings
            &&& parsed_nested(parts.last()) == b
        }),
{
    block_names();
    kind_names();
    match b {
        ToolOutputBlockV::Text { text, cache, extra } => {
            let known = seq!["type"@, "text"@];
            assert(known[0] == "type"@ && known[1] == "text"@);
            let ns = extra_ns(extra, ANTHROPIC_MESSAGES@);
            let t = seq![("type"@, JsonV::Str("text"@)), ("text"@, JsonV::Str(text))];
            assert(within(t, known));
            provider_data_survives(ANTHROPIC_MESSAGES@, t, ns, known);
            there(t, ns, "type"@, 0);
            there(t, ns, "text"@, 1);
            assert(type_of(JsonV::Object(t + ns)) == Some("text"@));
        },
        ToolOutputBlockV::Image { source, cache, extra } => {
            let known = seq!["type"@, "source"@];
            assert(known[0] == "type"@ && known[1] == "source"@);
            let ns = extra_ns(extra, ANTHROPIC_MESSAGES@);
            let t = seq![("type"@, JsonV::Str("image"@)), ("source"@, image_source(source))];
            assert(within(t, known));
            provider_data_survives(ANTHROPIC_MESSAGES@, t, ns, known);
            there(t, ns, "type"@, 0);
            there(t, ns, "source"@, 1);
            assert(type_of(JsonV::Object(t + ns)) == Some("image"@));
            source_is_decoded(source);
        },
        _ => {},
    }
    let (parts, s) = nested_step(prev, b, loc);
    assert(parts.drop_last() =~= prev.0);
}

proof fn nested_prefix(a: Seq<JsonV>, b: Seq<JsonV>, n: nat)
    requires
        n <= a.len(),
        n <= b.len(),
        forall|i: int| 0 <= i < n ==> (#[trigger] a[i]) == b[i],
    ensures
        parsed_nested_all(a, n) == parsed_nested_all(b, n),
    decreases n,
{
    if n > 0 {
        nested_prefix(a, b, (n - 1) as nat);
    }
}

proof fn nested_parts_round_trip(content: Seq<ToolOutputBlockV>, loc: Seq<char>, s: SinkV, n: nat)
    requires
        n <= content.len(),
        forall|i: int| 0 <= i < content.len() ==> plain_nested(#[trigger] content[i]),
    ensures
        ({
            let (parts, s1) = nested_parts(content, loc, s, n);
            &&& parts.len() == n
            &&& s1.warnings == s.warnings
            &&& parsed_nested_all(parts, n) == content.take(n as int)
        }),
    decreases n,
{
    if n == 0 {
        assert(content.take(0) =~= Seq::<ToolOutputBlockV>::empty());
    } else {
        let p = (n - 1) as nat;
        nested_parts_round_trip(content, loc, s, p);
        let prev = nested_parts(content, loc, s, p);
        assert(plain_nested(content[p as int]));
        nested_round_trip(prev, content[p as int], loc);
        let (parts, s1) = nested_parts(content, loc, s, n);
        assert forall|i: int| 0 <= i < p implies (#[trigger] prev.0[i]) == parts[i] by {
            assert(parts.drop_last()[i] == parts[i]);
        }
        nested_prefix(prev.0, parts, p);
        assert(parts[p as int] == parts.last());
        assert(content.take(p as int).push(content[p as int]) =~= content.take(n as int));
    }
}

/// A tool result is read back from what it becomes.
pub proof fn tool_result_round_trip(
    id: Seq<char>,
    content: Seq<ToolOutputBlockV>,
    is_error: Option<bool>,
    cache: Option<CacheHintV>,
    extra: ExtraV,
    loc: Seq<char>,
    ir_loc: Seq<char>,
    as_text: bool,
    s: SinkV,
    at: Seq<char>,
    ws: Seq<ConversionWarningV>,
)
    requires
        node_data(extra, cache, tool_result_block_keys()),
        forall|i: int| 0 <= i < content.len() ==> plain_nested(#[trigger] content[i]),
    ensures
        ({
            let b = ContentBlockV::ToolResult {
                tool_call_id: Some(id),
                name: None,
                content,
                is_error,
                cache,
                extra,
            };
            match block_value(Role::Tool, b, loc, ir_loc, as_text, s) {
                Ok((Some(v), s1)) => s1.warnings == s.warnings && parsed_tool_result(v, at, ws) == (b, ws)
                    && type_of(v) == Some("tool_result"@),
                _ => false,
            }
        }),
{
    block_names();
    let known = tool_result_block_keys();
    assert(known[0] == "type"@ && known[1] == "tool_use_id"@ && known[2] == "content"@ && known[3] == "is_error"@
        && known[4] == "cache_control"@);
    let t0 = seq![("type"@, JsonV::Str("tool_result"@)), ("tool_use_id"@, JsonV::Str(id))];
    let (value, s2) = with_result_content(JsonV::Object(t0), content, loc, s);
    let single = content.len() == 1 && content[0] is Text && !extra_has(
        content[0]->Text_extra,
        ANTHROPIC_MESSAGES@,
    );
    nested_parts_round_trip(content, loc, s, content.len());
    let parts = nested_parts(content, loc, s, content.len()).0;
    assert(content.take(content.len() as int) =~= content);
    let c = if single { JsonV::Str(content[0]->Text_text) } else { JsonV::Array(parts) };
    let t1 = if content.len() > 0 { t0.push(("content"@, c)) } else { t0 };
    if content.len() > 0 {
        absent_is_not_read(t0, "content"@, c);
        assert(plain_nested(content[0]));
    }
    if single {
        let ns0 = extra_ns(content[0]->Text_extra, ANTHROPIC_MESSAGES@);
        namespace_holds_its_members(ANTHROPIC_MESSAGES@, ns0);
        assert(content =~= seq![text_output(content[0]->Text_text)]);
    }
    assert(value == JsonV::Object(t1));
    let t = match is_error {
        Some(e) => t1.push(("is_error"@, JsonV::Bool(e))),
        None => t1,
    };
    if is_error is Some {
        absent_is_not_read(t1, "is_error"@, JsonV::Bool(is_error->0));
    }
    assert(within(t, known));
    node_survives(t, cache, extra, known);
    first_named_is_read(t, "type"@, 0);
    first_named_is_read(t, "tool_use_id"@, 1);
    if content.len() > 0 {
        first_named_is_read(t, "content"@, 2);
    } else {
        assert(content =~= Seq::<ToolOutputBlockV>::empty());
        absent_is_not_read(t, "content"@, JsonV::Null);
    }
    if is_error is Some {
        first_named_is_read(t, "is_error"@, t1.len() as int);
    } else {
        absent_is_not_read(t, "is_error"@, JsonV::Null);
    }
    assert(known.contains("type"@) && known.contains("tool_use_id"@) && known.contains("content"@) && known.contains(
        "is_error"@,
    ));
}

/// A block that a user or assistant message of this format can carry.
pub open spec fn plain_block(role: Role, b: ContentBlockV) -> bool {
    match b {
        ContentBlockV::Text { text, cache, extra } => role != Role::Tool && node_data(
            extra,
            cache,
            text_block_keys(),
        ),
        ContentBlockV::Image { source, cache, extra } => role == Role::User && node_data(
            extra,
            cache,
            image_block_keys(),
        ),
        ContentBlockV::ToolCall { id, name, arguments, cache, extra } => role == Role::Assistant && id is Some
            && plain_arguments(arguments) && node_data(extra, cache, tool_use_block_keys()),
        ContentBlockV::ToolResult { tool_call_id, name, content, is_error, cache, extra } => role == Role::Tool
            && tool_call_id is Some && name is None && node_data(extra, cache, tool_result_block_keys()) && forall|i: int|
            0 <= i < content.len() ==> plain_nested(#[trigger] content[i]),
        ContentBlockV::Thinking { text, signature, extra } => role == Role::Assistant && (plain_thinking(
            text,
            signature,
            extra,
        ) || (text is None && signature is Some && redacted_data(extra))),
        ContentBlockV::Opaque { format, value } => {
            let t = type_of(value);
            &&& format == ANTHROPIC_MESSAGES@
            &&& t != Some("text"@)
            &&& role == Role::Assistant ==> t != Some("tool_use"@) && t != Some("thinking"@) && t != Some(
                "redacted_thinking"@,
            )
            &&& role != Role::Assistant ==> t != Some("image"@) && t != Some("tool_result"@)
            &&& role != Role::Tool
        },
    }
}

/// The block that a value of a message of this role holds.
pub open spec fn read_block(role: Role, v: JsonV, at: Seq<char>, ws: Seq<ConversionWarningV>) -> (
    ContentBlockV,
    Seq<ConversionWarningV>,
) {
    match role {
        Role::Assistant => parsed_assistant(v, at, ws),
        Role::Tool => parsed_tool_result(v, at, ws),
        _ => parsed_user(v, at, ws),
    }
}

/// A block is read back from the value that it becomes, without a warning on
/// either side.
pub proof fn block_round_trip(
    role: Role,
    b: ContentBlockV,
    loc: Seq<char>,
    ir_loc: Seq<char>,
    as_text: bool,
    s: SinkV,
    at: Seq<char>,
    ws: Seq<ConversionWarningV>,
)
    requires
        plain_block(role, b),
    ensures
        match block_value(role, b, loc, ir_loc, as_text, s) {
            Ok((Some(v), s1)) => {
                &&& s1.warnings == s.warnings
                &&& read_block(role, v, at, ws) == (b, ws)
                &&& role != Role::Assistant ==> ((role == Role::Tool) == (type_of(v) == Some("tool_result"@)))
                &&& role != Role::Assistant ==> (b is Text) == (type_of(v) == Some("text"@))
            },
            _ => false,
        },
{
    kind_names();
    match b {
        ContentBlockV::Text { text, cache, extra } => {
            text_round_trip(text, cache, extra, loc, s, at, ws);
        },
        ContentBlockV::Image { source, cache, extra } => {
            image_round_trip(source, cache, extra, loc, s, at, ws);
        },
        ContentBlockV::ToolCall { id, name, arguments, cache, extra } => {
            tool_call_round_trip(id->0, name, arguments, cache, extra, loc, ir_loc, as_text, s, at, ws);
        },
        ContentBlockV::ToolResult { tool_call_id, name, content, is_error, cache, extra } => {
            tool_result_round_trip(
                tool_call_id->0,
                content,
                is_error,
                cache,
                extra,
                loc,
                ir_loc,
                as_text,
                s,
                at,
                ws,
            );
        },
        ContentBlockV::Thinking { text, signature, extra } => {
            if plain_thinking(text, signature, extra) {
                thinking_round_trip(text->0, signature, extra, loc, as_text, s, at, ws);
            } else {
                redacted_round_trip(signature->0, extra, loc, as_text, s, at, ws);
            }
        },
        _ => {},
    }
}

} // verus!
