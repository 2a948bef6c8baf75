//! Laws: what a stream brings of a block in pieces adds up to the block that a
//! whole response would have carried.

use vstd::prelude::*;
use crate::convert::ConversionWarningV;
use crate::formats::anthropic_messages::blocks::text_value;
use crate::decode::unknown;
use crate::formats::anthropic_messages::parse_blocks::{parsed_assistant, split_cache, type_of};
use crate::formats::anthropic_messages::round_trip::{block_names, kind_names};
use crate::formats::anthropic_messages::stream::{delta_applied, finalized, fragment, opened, OpenBlockV};
use crate::formats::anthropic_messages::types::{decode_text_block, decode_thinking_block, decode_tool_use_block, text_block_keys, thinking_block_keys, tool_use_block_keys};
use crate::ir::CacheHintV;
use crate::json::{obj_get, obj_set, object2, JsonV, ObjV};
use crate::json_laws::{set_keeps_other_members, set_member_is_read};
use crate::namespaces::{modeled_set_keeps_unknown, two_members_are_read};
use crate::text::fragments_joined;
use crate::value::{json_to_text, wire};

verus! {

/// A delta with a fragment of text.
pub open spec fn text_delta(fragment: Seq<char>) -> JsonV {
    object2("type"@, JsonV::Str("text_delta"@), "text"@, JsonV::Str(fragment))
}

/// The open block after the first `n` fragments of text.
pub open spec fn fragments_applied(
    open: OpenBlockV,
    index: usize,
    fragments: Seq<Seq<char>>,
    data: Seq<char>,
    ws: Seq<ConversionWarningV>,
    n: nat,
) -> OpenBlockV
    decreases n,
{
    if n == 0 || n > fragments.len() {
        open
    } else {
        delta_applied(
            fragments_applied(open, index, fragments, data, ws, (n - 1) as nat),
            index,
            text_delta(fragments[n - 1]),
            data,
            ws,
        )->Ok_0.1
    }
}

proof fn text_names()
    ensures
        "type"@ != "text"@,
        "cache_control"@ != "type"@,
        "cache_control"@ != "text"@,
{
    reveal_strlit("type");
    reveal_strlit("text");
    reveal_strlit("cache_control");
    assert("type"@[1] == 'y' && "text"@[1] == 'e' && "type"@.len() == 4 && "text"@.len() == 4 && "cache_control"@.len()
        == 13);
}

/// A text value is decoded as that text.
proof fn text_is_decoded(text: Seq<char>)
    ensures
        decode_text_block(text_value(text)) is Ok,
        decode_text_block(text_value(text))->Ok_0.text == text,
        decode_text_block(text_value(text))->Ok_0.cache_control is None,
        decode_text_block(text_value(text))->Ok_0.extra == Seq::<(Seq<char>, JsonV)>::empty(),
        type_of(text_value(text)) == Some("text"@),
{
    text_names();
    let known = text_block_keys();
    assert(known[0] == "type"@ && known[1] == "text"@);
    two_members_are_read("type"@, JsonV::Str("text"@), "text"@, JsonV::Str(text), known);
}

proof fn fragments_add_up(
    index: usize,
    fragments: Seq<Seq<char>>,
    data: Seq<char>,
    ws: Seq<ConversionWarningV>,
    n: nat,
)
    requires
        n <= fragments.len(),
    ensures
        ({
            let open = OpenBlockV::Text {
                text: Seq::empty(),
                extra: Seq::empty(),
                cache: None,
                citations: Seq::empty(),
            };
            fragments_applied(open, index, fragments, data, ws, n) == (OpenBlockV::Text {
                text: fragments_joined(fragments, n),
                extra: Seq::empty(),
                cache: None,
                citations: Seq::empty(),
            })
        }),
    decreases n,
{
    if n > 0 {
        fragments_add_up(index, fragments, data, ws, (n - 1) as nat);
        text_names();
        let f = fragments[n - 1];
        let known = text_block_keys();
        assert(known[0] == "type"@ && known[1] == "text"@);
        two_members_are_read("type"@, JsonV::Str("text_delta"@), "text"@, JsonV::Str(f), known);
    }
}

/// A text that arrives in deltas stops as the block that the parse of the
/// whole block gives, with the fragments joined, however the text was cut.
pub proof fn streamed_text_equals_the_whole(
    index: usize,
    fragments: Seq<Seq<char>>,
    data: Seq<char>,
    loc: Seq<char>,
    ws: Seq<ConversionWarningV>,
)
    ensures
        ({
            let (open, start, ws1) = opened(text_value(Seq::empty()), loc, ws);
            let last = fragments_applied(open, index, fragments, data, ws, fragments.len());
            let whole = text_value(fragments_joined(fragments, fragments.len()));
            ws1 == ws && finalized(last, ws) == parsed_assistant(whole, loc, ws)
        }),
{
    text_is_decoded(Seq::empty());
    text_is_decoded(fragments_joined(fragments, fragments.len()));
    fragments_add_up(index, fragments, data, ws, fragments.len());
}

/// The open block after the first `n` deltas, each of which matches it.
pub open spec fn deltas_applied(
    open: OpenBlockV,
    index: usize,
    deltas: Seq<JsonV>,
    data: Seq<char>,
    ws: Seq<ConversionWarningV>,
    n: nat,
) -> OpenBlockV
    decreases n,
{
    if n == 0 || n > deltas.len() {
        open
    } else {
        delta_applied(
            deltas_applied(open, index, deltas, data, ws, (n - 1) as nat),
            index,
            deltas[n - 1],
            data,
            ws,
        )->Ok_0.1
    }
}

/// Deltas of one kind, each with a fragment.
pub open spec fn cut(kind: Seq<char>, key: Seq<char>, fragments: Seq<Seq<char>>) -> Seq<JsonV> {
    Seq::new(fragments.len(), |i: int| object2("type"@, JsonV::Str(kind), key, JsonV::Str(fragments[i])))
}

proof fn delta_is_read(kind: Seq<char>, key: Seq<char>, f: Seq<char>)
    requires
        key != "type"@,
    ensures
        ({
            let d = object2("type"@, JsonV::Str(kind), key, JsonV::Str(f));
            fragment(d, "type"@) == kind && fragment(d, key) == f
        }),
{
    two_members_are_read("type"@, JsonV::Str(kind), key, JsonV::Str(f), seq!["type"@, key]);
    assert(seq!["type"@, key][0] == "type"@ && seq!["type"@, key][1] == key);
}

proof fn delta_names()
    ensures
        "partial_json"@ != "type"@,
        "thinking"@ != "type"@,
        "signature"@ != "type"@,
        "text"@ != "type"@,
        "thinking_delta"@ != "signature_delta"@,
{
    reveal_strlit("partial_json");
    reveal_strlit("type");
    reveal_strlit("text");
    reveal_strlit("thinking");
    reveal_strlit("signature");
    reveal_strlit("thinking_delta");
    reveal_strlit("signature_delta");
    assert("partial_json"@.len() == 12 && "type"@.len() == 4 && "thinking"@.len() == 8 && "signature"@.len() == 9);
    assert("type"@[1] == 'y' && "text"@[1] == 'e');
    assert("thinking_delta"@.len() == 14 && "signature_delta"@.len() == 15);
}

proof fn texts_grow(
    text: Seq<char>,
    extra: ObjV,
    cache: Option<CacheHintV>,
    index: usize,
    fragments: Seq<Seq<char>>,
    data: Seq<char>,
    ws: Seq<ConversionWarningV>,
    n: nat,
)
    requires
        n <= fragments.len(),
    ensures
        deltas_applied(
            OpenBlockV::Text { text, extra, cache, citations: Seq::empty() },
            index,
            cut("text_delta"@, "text"@, fragments),
            data,
            ws,
            n,
        ) == (OpenBlockV::Text {
            text: text + fragments_joined(fragments, n),
            extra,
            cache,
            citations: Seq::empty(),
        }),
    decreases n,
{
    delta_names();
    if n == 0 {
        assert(text + Seq::<char>::empty() =~= text);
    } else {
        texts_grow(text, extra, cache, index, fragments, data, ws, (n - 1) as nat);
        delta_is_read("text_delta"@, "text"@, fragments[n - 1]);
        let before = fragments_joined(fragments, (n - 1) as nat);
        assert((text + before) + fragments[n - 1] =~= text + (before + fragments[n - 1]));
    }
}

proof fn calls_grow(
    id: Seq<char>,
    name: Seq<char>,
    start_input: JsonV,
    extra: ObjV,
    cache: Option<CacheHintV>,
    index: usize,
    fragments: Seq<Seq<char>>,
    data: Seq<char>,
    ws: Seq<ConversionWarningV>,
    n: nat,
)
    requires
        n <= fragments.len(),
    ensures
        deltas_applied(
            OpenBlockV::ToolUse { id, name, json: Seq::empty(), start_input, extra, cache },
            index,
            cut("input_json_delta"@, "partial_json"@, fragments),
            data,
            ws,
            n,
        ) == (OpenBlockV::ToolUse { id, name, json: fragments_joined(fragments, n), start_input, extra, cache }),
    decreases n,
{
    delta_names();
    if n > 0 {
        calls_grow(id, name, start_input, extra, cache, index, fragments, data, ws, (n - 1) as nat);
        delta_is_read("input_json_delta"@, "partial_json"@, fragments[n - 1]);
    }
}

proof fn thoughts_grow(
    text: Seq<char>,
    signature: Seq<char>,
    extra: ObjV,
    index: usize,
    fragments: Seq<Seq<char>>,
    data: Seq<char>,
    ws: Seq<ConversionWarningV>,
    n: nat,
)
    requires
        n <= fragments.len(),
    ensures
        deltas_applied(
            OpenBlockV::Thinking { text, signature, extra },
            index,
            cut("thinking_delta"@, "thinking"@, fragments),
            data,
            ws,
            n,
        ) == (OpenBlockV::Thinking { text: text + fragments_joined(fragments, n), signature, extra }),
    decreases n,
{
    delta_names();
    if n == 0 {
        assert(text + Seq::<char>::empty() =~= text);
    } else {
        thoughts_grow(text, signature, extra, index, fragments, data, ws, (n - 1) as nat);
        delta_is_read("thinking_delta"@, "thinking"@, fragments[n - 1]);
        let before = fragments_joined(fragments, (n - 1) as nat);
        assert((text + before) + fragments[n - 1] =~= text + (before + fragments[n - 1]));
    }
}

proof fn set_member_of(o: ObjV, k: Seq<char>, v: JsonV, known: Seq<Seq<char>>)
    requires
        known.contains(k),
    ensures
        obj_get(obj_set(o, k, v), k) == Some(v),
        forall|n: Seq<char>| n != k ==> #[trigger] obj_get(obj_set(o, k, v), n) == obj_get(o, n),
        unknown(obj_set(o, k, v), known) == unknown(o, known),
{
    set_member_is_read(o, k, v);
    modeled_set_keeps_unknown(o, k, v, known);
    assert forall|n: Seq<char>| n != k implies #[trigger] obj_get(obj_set(o, k, v), n) == obj_get(o, n) by {
        set_keeps_other_members(o, k, v, n);
    }
}

/// A text block that starts with part of its text, a cache hint or anything
/// unmodeled, and goes on in deltas, stops as the block that the parse of the
/// whole block gives.
pub proof fn streamed_text_block_equals_the_whole(
    start: ObjV,
    index: usize,
    fragments: Seq<Seq<char>>,
    data: Seq<char>,
    loc: Seq<char>,
    ws: Seq<ConversionWarningV>,
)
    requires
        type_of(JsonV::Object(start)) == Some("text"@),
        decode_text_block(JsonV::Object(start)) is Ok,
    ensures
        ({
            let w = decode_text_block(JsonV::Object(start))->Ok_0;
            let open = opened(JsonV::Object(start), loc, ws).0;
            let last = deltas_applied(
                open,
                index,
                cut("text_delta"@, "text"@, fragments),
                data,
                ws,
                fragments.len(),
            );
            let whole = obj_set(
                start,
                "text"@,
                JsonV::Str(w.text + fragments_joined(fragments, fragments.len())),
            );
            finalized(last, ws) == parsed_assistant(JsonV::Object(whole), loc, ws)
        }),
{
    text_names();
    let w = decode_text_block(JsonV::Object(start))->Ok_0;
    let (cache, rest) = split_cache(w.cache_control, w.extra);
    texts_grow(w.text, rest, cache, index, fragments, data, ws, fragments.len());
    let known = text_block_keys();
    assert(known[1] == "text"@);
    set_member_of(start, "text"@, JsonV::Str(w.text + fragments_joined(fragments, fragments.len())), known);
}

/// A thinking block whose text and then signature arrive in deltas stops as the
/// block that the parse of the whole block gives.
pub proof fn streamed_thinking_equals_the_whole(
    start: ObjV,
    index: usize,
    fragments: Seq<Seq<char>>,
    signature: Seq<char>,
    data: Seq<char>,
    loc: Seq<char>,
    ws: Seq<ConversionWarningV>,
)
    requires
        type_of(JsonV::Object(start)) == Some("thinking"@),
        decode_thinking_block(JsonV::Object(start)) is Ok,
        decode_thinking_block(JsonV::Object(start))->Ok_0.signature is None,
        signature.len() > 0,
    ensures
        ({
            let w = decode_thinking_block(JsonV::Object(start))->Ok_0;
            let open = opened(JsonV::Object(start), loc, ws).0;
            let thought = deltas_applied(
                open,
                index,
                cut("thinking_delta"@, "thinking"@, fragments),
                data,
                ws,
                fragments.len(),
            );
            let last = deltas_applied(thought, index, cut("signature_delta"@, "signature"@, seq![signature]), data, ws, 1);
            let whole = obj_set(
                obj_set(start, "thinking"@, JsonV::Str(w.thinking + fragments_joined(fragments, fragments.len()))),
                "signature"@,
                JsonV::Str(signature),
            );
            finalized(last, ws) == parsed_assistant(JsonV::Object(whole), loc, ws)
        }),
{
    text_names();
    delta_names();
    kind_names();
    let w = decode_thinking_block(JsonV::Object(start))->Ok_0;
    thoughts_grow(w.thinking, Seq::empty(), w.extra, index, fragments, data, ws, fragments.len());
    let open = opened(JsonV::Object(start), loc, ws).0;
    let thought = deltas_applied(
        open,
        index,
        cut("thinking_delta"@, "thinking"@, fragments),
        data,
        ws,
        fragments.len(),
    );
    let one = cut("signature_delta"@, "signature"@, seq![signature]);
    delta_is_read("signature_delta"@, "signature"@, signature);
    assert(deltas_applied(thought, index, one, data, ws, 0) == thought);
    assert(deltas_applied(thought, index, one, data, ws, 1) == delta_applied(thought, index, one[0], data, ws)->Ok_0.1);
    assert(Seq::<char>::empty() + signature =~= signature);
    let known = thinking_block_keys();
    assert(known[0] == "type"@ && known[1] == "thinking"@ && known[2] == "signature"@);
    let text = JsonV::Str(w.thinking + fragments_joined(fragments, fragments.len()));
    block_names();
    set_member_of(start, "thinking"@, text, known);
    set_member_of(obj_set(start, "thinking"@, text), "signature"@, JsonV::Str(signature), known);
}

/// A call whose arguments arrive in deltas stops as the block that the parse of
/// the whole block gives, when the deltas are cut from the text of its input.
pub proof fn streamed_call_equals_the_whole(
    start: ObjV,
    input: ObjV,
    index: usize,
    fragments: Seq<Seq<char>>,
    data: Seq<char>,
    loc: Seq<char>,
    ws: Seq<ConversionWarningV>,
)
    requires
        type_of(JsonV::Object(start)) == Some("tool_use"@),
        decode_tool_use_block(JsonV::Object(start)) is Ok,
        fragments_joined(fragments, fragments.len()) == json_to_text(wire(JsonV::Object(input))),
        fragments_joined(fragments, fragments.len()).len() > 0,
    ensures
        ({
            let open = opened(JsonV::Object(start), loc, ws).0;
            let last = deltas_applied(
                open,
                index,
                cut("input_json_delta"@, "partial_json"@, fragments),
                data,
                ws,
                fragments.len(),
            );
            let whole = obj_set(start, "input"@, JsonV::Object(input));
            finalized(last, ws) == parsed_assistant(JsonV::Object(whole), loc, ws)
        }),
{
    kind_names();
    block_names();
    let w = decode_tool_use_block(JsonV::Object(start))->Ok_0;
    let (cache, rest) = split_cache(w.cache_control, w.extra);
    calls_grow(w.id, w.name, w.input, rest, cache, index, fragments, data, ws, fragments.len());
    let known = tool_use_block_keys();
    assert(known[3] == "input"@);
    set_member_of(start, "input"@, JsonV::Object(input), known);
}

} // verus!
